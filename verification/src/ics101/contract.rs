//! The decisions of the interchain swap's requests: which requests are refused, and
//! what a request records and sends when it is accepted. The caller loads the pools,
//! orders and funds these functions take, and saves and sends what they return.
use vstd::prelude::*;

use crate::coin::Coin;
use crate::ics101::error::ContractError;
use crate::ics101::market::{
    deposit_multi_spec, deposit_single_defined, deposit_single_spec, duplicate_assets,
    first_with_side, issue_defined, offer_defined, offer_spec, share_out_ratio, swap_defined,
    swap_spec, withdraw_ok_upto, asset_out, InterchainLiquidityPool, InterchainMarketMaker,
    PoolSide, PoolStatus,
};
use crate::ics101::interchainswap_handler::last_coin_with_denom;
use crate::ics101::msg::{
    InterchainPoolResponse, MsgMakeMultiAssetDepositRequest, MsgMakePoolRequest,
    MsgSingleAssetDepositRequest, MsgSwapRequest, SwapMsgType,
};
use crate::ics101::types::{InterchainMessageType, MultiAssetDepositOrder, OrderStatus, StateChange};
use crate::ics101::utils::{
    denoms_of, get_coins_from_deposits, get_pool_id_with_tokens, pool_id_spec, sorted_by_bytes,
    INSTANTIATE_TOKEN_REPLY_ID, MAXIMUM_SLIPPAGE,
};

verus! {

/// Seconds after which a packet sent by a request times out.
pub const DEFAULT_TIMEOUT_TIMESTAMP_OFFSET: u64 = 600;

/// Some coin of `funds` is exactly `token`.
pub open spec fn funds_contain(funds: Seq<Coin>, token: Coin) -> bool {
    exists|i: int| 0 <= i < funds.len() && #[trigger] funds[i].denom@ == token.denom@ && funds[i].amount == token.amount
}

/// Whether the funds sent with a request include exactly `token`.
pub fn has_funds(funds: &Vec<Coin>, token: &Coin) -> (r: bool)
    ensures
        r == funds_contain(funds@, *token),
{
    let mut i: usize = 0;
    while i < funds.len()
        invariant
            i <= funds@.len(),
            forall|j: int| 0 <= j < i ==> !(funds@[j].denom@ == token.denom@ && funds@[j].amount == token.amount),
        decreases funds.len() - i,
    {
        if funds[i].denom == token.denom && funds[i].amount == token.amount {
            return true;
        }
        i = i + 1;
    }
    false
}

/// The storage key of a deposit order: the pool id, `-`, the order id.
pub fn order_key(pool_id: &String, order_id: &String) -> (r: String)
    ensures
        r@ == pool_id@ + seq!['-'] + order_id@,
{
    let mut key = pool_id.clone();
    let dash = "-";
    proof {
        reveal_strlit("-");
    }
    key.append(dash);
    key.append(order_id.as_str());
    key
}

/// The storage key of the pending order between a maker and a taker on a pool:
/// maker, `-`, pool id, `-`, taker.
pub fn active_order_key(maker: &String, pool_id: &String, taker: &String) -> (r: String)
    ensures
        r@ == maker@ + seq!['-'] + pool_id@ + seq!['-'] + taker@,
{
    let mut key = maker.clone();
    let dash = "-";
    proof {
        reveal_strlit("-");
    }
    key.append(dash);
    key.append(pool_id.as_str());
    key.append(dash);
    key.append(taker.as_str());
    key
}

/// A packet a request sends to the other chain: the channel, the kind of request, the
/// pool changes it carries (if any) and when it times out (seconds). The request itself
/// travels as the packet's data.
#[derive(Clone, Debug, PartialEq, Eq)]
pub struct PacketPlan {
    pub channel: String,
    pub msg_type: InterchainMessageType,
    pub state_change: Option<StateChange>,
    pub timeout_seconds: u64,
}

/// The packet of kind `msg_type` on `channel`, carrying `state_change`, timing out 600
/// seconds after `now`.
pub open spec fn packet_spec(
    channel: String,
    msg_type: InterchainMessageType,
    state_change: Option<StateChange>,
    now: u64,
) -> PacketPlan {
    PacketPlan {
        channel,
        msg_type,
        state_change,
        timeout_seconds: (now + DEFAULT_TIMEOUT_TIMESTAMP_OFFSET) as u64,
    }
}

fn packet(channel: String, msg_type: InterchainMessageType, state_change: Option<StateChange>, now: u64) -> (r:
    PacketPlan)
    requires
        now + DEFAULT_TIMEOUT_TIMESTAMP_OFFSET <= u64::MAX,
    ensures
        r == packet_spec(channel, msg_type, state_change, now),
{
    PacketPlan { channel, msg_type, state_change, timeout_seconds: now + DEFAULT_TIMEOUT_TIMESTAMP_OFFSET }
}

/// The coins of an optional list, as a sequence.
pub open spec fn coins_view(o: Option<Vec<Coin>>) -> Option<Seq<Coin>> {
    match o {
        Some(v) => Some(v@),
        None => None,
    }
}

/// `pk` is a packet of kind `msg_type` on `channel`, timing out 600 seconds after `now`,
/// whose state change carries the tokens in, out and pool tokens given and nothing else.
pub open spec fn token_packet(
    pk: PacketPlan,
    channel: String,
    msg_type: InterchainMessageType,
    now: u64,
    ins: Option<Seq<Coin>>,
    outs: Option<Seq<Coin>>,
    pools: Option<Seq<Coin>>,
) -> bool {
    &&& pk.channel == channel
    &&& pk.msg_type == msg_type
    &&& pk.timeout_seconds == now + DEFAULT_TIMEOUT_TIMESTAMP_OFFSET
    &&& pk.state_change is Some
    &&& coins_view(pk.state_change->0.in_tokens) == ins
    &&& coins_view(pk.state_change->0.out_tokens) == outs
    &&& coins_view(pk.state_change->0.pool_tokens) == pools
    &&& pk.state_change->0.pool_id is None
    &&& pk.state_change->0.multi_deposit_order_id is None
    &&& pk.state_change->0.source_chain_id is None
    &&& pk.state_change->0.shares is None
}

fn token_packet_plan(
    channel: String,
    msg_type: InterchainMessageType,
    now: u64,
    ins: Option<Vec<Coin>>,
    outs: Option<Vec<Coin>>,
    pools: Option<Vec<Coin>>,
) -> (r: PacketPlan)
    requires
        now + DEFAULT_TIMEOUT_TIMESTAMP_OFFSET <= u64::MAX,
    ensures
        token_packet(r, channel, msg_type, now, coins_view(ins), coins_view(outs), coins_view(pools)),
{
    let change = StateChange {
        in_tokens: ins,
        out_tokens: outs,
        pool_tokens: pools,
        pool_id: None,
        multi_deposit_order_id: None,
        source_chain_id: None,
        shares: None,
    };
    packet(channel, msg_type, Some(change), now)
}

/// A list of one coin.
fn one_coin(c: Coin) -> (r: Vec<Coin>)
    ensures
        r@ == seq![c],
{
    let mut v: Vec<Coin> = Vec::new();
    v.push(c);
    proof {
        assert(v@ =~= seq![c]);
    }
    v
}

/// The instantiation of a pool's share token, answered under `reply_id`.
#[derive(Clone, Debug, PartialEq, Eq)]
pub struct LpTokenInstantiate {
    pub code_id: u64,
    pub reply_id: u64,
    pub name: String,
    pub symbol: String,
    pub decimals: u8,
    /// The only minter, without a cap.
    pub minter: String,
}

/// `t` instantiates a share token named `sideLP` (six decimals, minted only by
/// `contract`) from `code_id`, answered under the share-token reply id.
pub open spec fn is_share_token(t: LpTokenInstantiate, code_id: u64, contract: String) -> bool {
    &&& t.code_id == code_id
    &&& t.reply_id == INSTANTIATE_TOKEN_REPLY_ID
    &&& t.name@ == seq!['s', 'i', 'd', 'e', 'L', 'P']
    &&& t.symbol@ == seq!['s', 'i', 'd', 'e', 'L', 'P']
    &&& t.decimals == 6
    &&& t.minter == contract
}

fn share_token(code_id: u64, contract_addr: &String) -> (r: LpTokenInstantiate)
    ensures
        is_share_token(r, code_id, *contract_addr),
{
    let name = "sideLP";
    proof {
        reveal_strlit("sideLP");
        assert(name@ =~= seq!['s', 'i', 'd', 'e', 'L', 'P']);
    }
    LpTokenInstantiate {
        code_id,
        reply_id: INSTANTIATE_TOKEN_REPLY_ID,
        name: name.to_owned(),
        symbol: name.to_owned(),
        decimals: 6,
        minter: contract_addr.clone(),
    }
}

/// What an accepted make-pool request sends: the share token to instantiate, and the
/// packet that makes the pool on the other chain.
#[derive(Clone, Debug, PartialEq, Eq)]
pub struct MakePoolMessages {
    pub lp_token: LpTokenInstantiate,
    pub packet: PacketPlan,
}

/// A state change that carries nothing.
pub open spec fn no_change() -> StateChange {
    StateChange {
        in_tokens: None,
        out_tokens: None,
        pool_tokens: None,
        pool_id: None,
        multi_deposit_order_id: None,
        source_chain_id: None,
        shares: None,
    }
}

/// The messages of an accepted make-pool request: a share token named `sideLP` (six
/// decimals, minted by this contract) from `code_id`, and a make-pool packet on the
/// request's channel carrying the pool id, timing out 600 seconds after `now`.
pub fn make_pool_messages(
    msg: &MsgMakePoolRequest,
    pool_id: &String,
    code_id: u64,
    contract_addr: &String,
    now: u64,
) -> (r: MakePoolMessages)
    requires
        now + DEFAULT_TIMEOUT_TIMESTAMP_OFFSET <= u64::MAX,
    ensures
        is_share_token(r.lp_token, code_id, *contract_addr),
        r.packet == packet_spec(
            msg.source_channel,
            InterchainMessageType::MakePool,
            Some(StateChange { pool_id: Some(*pool_id), ..no_change() }),
            now,
        ),
{
    let change = StateChange {
        in_tokens: None,
        out_tokens: None,
        pool_tokens: None,
        pool_id: Some(pool_id.clone()),
        multi_deposit_order_id: None,
        source_chain_id: None,
        shares: None,
    };
    MakePoolMessages {
        lp_token: share_token(code_id, contract_addr),
        packet: packet(msg.source_channel.clone(), InterchainMessageType::MakePool, Some(change), now),
    }
}

/// `id` is the pool id of the two assets of `msg` between its two chains, as
/// `get_pool_id_with_tokens` gives it.
pub open spec fn pool_id_of(msg: MsgMakePoolRequest, id: Seq<char>) -> bool {
    exists|d: Seq<String>, c: Seq<String>|
        #![trigger pool_id_spec(d, c)]
        d.to_multiset() == denoms_of(
            seq![msg.liquidity@[0].balance, msg.liquidity@[1].balance],
        ).to_multiset() && sorted_by_bytes(d) && c.to_multiset() == seq![
            msg.source_chain_id,
            msg.destination_chain_id,
        ].to_multiset() && sorted_by_bytes(c) && id == pool_id_spec(d, c)
}

/// One of `ids` is `id`.
pub open spec fn contains_id(ids: Seq<String>, id: Seq<char>) -> bool {
    exists|i: int| 0 <= i < ids.len() && (#[trigger] ids[i])@ == id
}

/// Whether one of `ids` is `id`.
pub fn has_id(ids: &Vec<String>, id: &String) -> (r: bool)
    ensures
        r == contains_id(ids@, id@),
{
    let mut i: usize = 0;
    while i < ids.len()
        invariant
            i <= ids@.len(),
            forall|j: int| 0 <= j < i ==> (#[trigger] ids@[j])@ != id@,
        decreases ids.len() - i,
    {
        if ids[i] == *id {
            return true;
        }
        i = i + 1;
    }
    false
}

/// What a make-pool request of `msg` whose pool id is `id` does, given the ids of the
/// stored pools and of the pools with a share token.
pub open spec fn make_pool_outcome(
    msg: MsgMakePoolRequest,
    id: String,
    pool_ids: Seq<String>,
    lp_token_ids: Seq<String>,
    funds: Seq<Coin>,
    code_id: u64,
    contract: String,
    now: u64,
    r: Result<(InterchainLiquidityPool, MakePoolMessages), ContractError>,
) -> bool {
    if contains_id(pool_ids, id@) {
        r == Err::<(InterchainLiquidityPool, MakePoolMessages), ContractError>(
            ContractError::PoolAlreadyExists,
        )
    } else if !funds_contain(funds, msg.liquidity@[0].balance) && !funds_contain(
        funds,
        msg.liquidity@[1].balance,
    ) {
        r == Err::<(InterchainLiquidityPool, MakePoolMessages), ContractError>(
            ContractError::FundsMismatch,
        )
    } else if contains_id(lp_token_ids, id@) {
        r == Err::<(InterchainLiquidityPool, MakePoolMessages), ContractError>(
            ContractError::LpTokenExists,
        )
    } else {
        r matches Ok((p, m)) && {
            &&& p.id == id
            &&& p.assets@ == msg.liquidity@
            &&& p.supply == Coin { denom: id, amount: 0 }
            &&& p.status == PoolStatus::Initialized
            &&& p.source_creator == msg.creator
            &&& p.destination_creator == msg.counterparty_creator
            &&& p.counter_party_port == msg.source_port
            &&& p.counter_party_channel == msg.source_channel
            &&& p.swap_fee == msg.swap_fee
            &&& p.source_chain_id == msg.source_chain_id
            &&& p.destination_chain_id == msg.destination_chain_id
            &&& p.pool_price == 0
            &&& is_share_token(m.lp_token, code_id, contract)
            &&& m.packet == packet_spec(
                msg.source_channel,
                InterchainMessageType::MakePool,
                Some(StateChange { pool_id: Some(id), ..no_change() }),
                now,
            )
        }
    }
}

/// A new pool is made on this chain: two assets whose weights add up to 100, no pool of
/// its id yet (the id derived from the two denominations and the two chain ids, see
/// `get_pool_id_with_tokens`), one of its assets locked with the request, and no share
/// token yet. The pool waits, with no shares, to be taken on the other chain; its share
/// token is instantiated and a packet makes it on the other chain. `pool_ids` and
/// `lp_token_ids` are the ids of the stored pools and of the pools with a share token.
pub fn make_pool(
    msg: &MsgMakePoolRequest,
    pool_ids: &Vec<String>,
    lp_token_ids: &Vec<String>,
    funds: &Vec<Coin>,
    code_id: u64,
    contract_addr: &String,
    now: u64,
) -> (r: Result<(InterchainLiquidityPool, MakePoolMessages), ContractError>)
    requires
        msg.liquidity.len() == 2 ==> msg.liquidity[0].weight + msg.liquidity[1].weight <= u32::MAX,
        now + DEFAULT_TIMEOUT_TIMESTAMP_OFFSET <= u64::MAX,
    ensures
        msg.liquidity.len() != 2 ==> r == Err::<(InterchainLiquidityPool, MakePoolMessages), ContractError>(
            ContractError::InvalidDenomPair,
        ),
        msg.liquidity.len() == 2 && msg.liquidity[0].weight + msg.liquidity[1].weight != 100 ==> r
            == Err::<(InterchainLiquidityPool, MakePoolMessages), ContractError>(
            ContractError::InvalidWeightPair,
        ),
        msg.liquidity.len() == 2 && msg.liquidity[0].weight + msg.liquidity[1].weight == 100 ==> exists|
            id: String,
        |
            pool_id_of(*msg, id@) && #[trigger] make_pool_outcome(
                *msg,
                id,
                pool_ids@,
                lp_token_ids@,
                funds@,
                code_id,
                *contract_addr,
                now,
                r,
            ),
{
    match msg.validate_basic() {
        Ok(_) => {},
        Err(e) => {
            return Err(e);
        },
    }
    let mut tokens: Vec<Coin> = Vec::new();
    tokens.push(msg.liquidity[0].balance.duplicate());
    tokens.push(msg.liquidity[1].balance.duplicate());
    proof {
        assert(tokens@ =~= seq![msg.liquidity@[0].balance, msg.liquidity@[1].balance]);
    }
    let pool_id = get_pool_id_with_tokens(
        tokens.as_slice(),
        msg.source_chain_id.clone(),
        msg.destination_chain_id.clone(),
    );
    proof {
        assert(pool_id_of(*msg, pool_id@));
    }
    let r = if has_id(pool_ids, &pool_id) {
        Err(ContractError::PoolAlreadyExists)
    } else if !has_funds(funds, &msg.liquidity[0].balance) && !has_funds(
        funds,
        &msg.liquidity[1].balance,
    ) {
        Err(ContractError::FundsMismatch)
    } else if has_id(lp_token_ids, &pool_id) {
        Err(ContractError::LpTokenExists)
    } else {
        let pool = InterchainLiquidityPool {
            id: pool_id.clone(),
            source_creator: msg.creator.clone(),
            destination_creator: msg.counterparty_creator.clone(),
            assets: duplicate_assets(&msg.liquidity),
            supply: Coin { amount: 0, denom: pool_id.clone() },
            status: PoolStatus::Initialized,
            counter_party_port: msg.source_port.clone(),
            counter_party_channel: msg.source_channel.clone(),
            swap_fee: msg.swap_fee,
            source_chain_id: msg.source_chain_id.clone(),
            destination_chain_id: msg.destination_chain_id.clone(),
            pool_price: 0,
        };
        let messages = make_pool_messages(msg, &pool_id, code_id, contract_addr, now);
        Ok((pool, messages))
    };
    proof {
        assert(make_pool_outcome(
            *msg,
            pool_id,
            pool_ids@,
            lp_token_ids@,
            funds@,
            code_id,
            *contract_addr,
            now,
            r,
        ));
    }
    r
}

/// What an accepted take-pool request sends: the pool's share token, where it has none
/// yet, and the packet that takes the pool on the other chain.
#[derive(Clone, Debug, PartialEq, Eq)]
pub struct TakePoolMessages {
    pub lp_token: Option<LpTokenInstantiate>,
    pub packet: PacketPlan,
}

/// A pool may be taken while it waits, by its named counterparty, who locks the pool's
/// source asset with the request. A share token is instantiated where the pool has none
/// yet, and a take-pool packet goes out on the pool's channel.
pub fn take_pool(
    pool: &Option<InterchainLiquidityPool>,
    sender: &String,
    funds: &Vec<Coin>,
    lp_token_exists: bool,
    code_id: u64,
    contract_addr: &String,
    now: u64,
) -> (r: Result<TakePoolMessages, ContractError>)
    requires
        now + DEFAULT_TIMEOUT_TIMESTAMP_OFFSET <= u64::MAX,
    ensures
        match pool {
            None => r == Err::<TakePoolMessages, ContractError>(ContractError::PoolNotFound),
            Some(p) => if p.status != PoolStatus::Initialized {
                r == Err::<TakePoolMessages, ContractError>(ContractError::InvalidStatus)
            } else if p.destination_creator@ != sender@ {
                r == Err::<TakePoolMessages, ContractError>(ContractError::InvalidSender)
            } else {
                match first_with_side(p.assets@, PoolSide::SOURCE, 0) {
                    None => r == Err::<TakePoolMessages, ContractError>(ContractError::AssetNotFound),
                    Some(i) => if funds_contain(funds@, p.assets@[i].balance) {
                        r matches Ok(m) && {
                            &&& (m.lp_token is None <==> lp_token_exists)
                            &&& (m.lp_token matches Some(t) ==> is_share_token(t, code_id, *contract_addr))
                            &&& m.packet == packet_spec(
                                p.counter_party_channel,
                                InterchainMessageType::TakePool,
                                None,
                                now,
                            )
                        }
                    } else {
                        r == Err::<TakePoolMessages, ContractError>(ContractError::FundsMismatch)
                    },
                }
            },
        },
{
    let p = match pool {
        Some(p) => p,
        None => {
            return Err(ContractError::PoolNotFound);
        },
    };
    if p.status != PoolStatus::Initialized {
        return Err(ContractError::InvalidStatus);
    }
    if p.destination_creator != *sender {
        return Err(ContractError::InvalidSender);
    }
    let token = match p.find_asset_by_side(PoolSide::SOURCE) {
        Ok(t) => t,
        Err(e) => {
            return Err(e);
        },
    };
    if !has_funds(funds, &token.balance) {
        return Err(ContractError::FundsMismatch);
    }
    let lp_token = if lp_token_exists {
        None
    } else {
        Some(share_token(code_id, contract_addr))
    };
    Ok(
        TakePoolMessages {
            lp_token,
            packet: packet(p.counter_party_channel.clone(), InterchainMessageType::TakePool, None, now),
        },
    )
}

/// A waiting pool may be cancelled by its maker or by the admin; a cancel-pool packet
/// goes out on the pool's channel.
pub fn cancel_pool(pool: &Option<InterchainLiquidityPool>, sender: &String, admin: &String, now: u64) -> (r:
    Result<PacketPlan, ContractError>)
    requires
        now + DEFAULT_TIMEOUT_TIMESTAMP_OFFSET <= u64::MAX,
    ensures
        match pool {
            None => r == Err::<PacketPlan, ContractError>(ContractError::PoolNotFound),
            Some(p) => if p.status != PoolStatus::Initialized {
                r == Err::<PacketPlan, ContractError>(ContractError::InvalidStatus)
            } else if !(p.source_creator@ == sender@ || sender@ == admin@) {
                r == Err::<PacketPlan, ContractError>(ContractError::InvalidSender)
            } else {
                r == Ok::<PacketPlan, ContractError>(
                    packet_spec(p.counter_party_channel, InterchainMessageType::CancelPool, None, now),
                )
            },
        },
{
    let p = match pool {
        Some(p) => p,
        None => {
            return Err(ContractError::PoolNotFound);
        },
    };
    if p.status != PoolStatus::Initialized {
        return Err(ContractError::InvalidStatus);
    }
    if !(p.source_creator == *sender || *sender == *admin) {
        return Err(ContractError::InvalidSender);
    }
    Ok(packet(p.counter_party_channel.clone(), InterchainMessageType::CancelPool, None, now))
}

/// The market maker of a pool, at the pool's own fee rate.
pub open spec fn amm_of(pool: InterchainLiquidityPool) -> InterchainMarketMaker {
    InterchainMarketMaker { pool, fee_rate: pool.swap_fee }
}

/// A one-sided deposit: a token sent with the request into an active pool that already
/// has shares. Returns the shares it issues, and the packet carrying them to the other
/// chain on the pool's channel.
pub fn single_asset_deposit(
    msg: &MsgSingleAssetDepositRequest,
    funds: &Vec<Coin>,
    pool: Option<InterchainLiquidityPool>,
    now: u64,
) -> (r: Result<(Coin, PacketPlan), ContractError>)
    requires
        pool matches Some(p) ==> (msg.token.amount != 0 && funds_contain(funds@, msg.token)
            && p.supply.amount != 0 && p.status == PoolStatus::Active ==> deposit_single_defined(
            amm_of(p),
            msg.token,
        )),
        now + DEFAULT_TIMEOUT_TIMESTAMP_OFFSET <= u64::MAX,
    ensures
        msg.token.amount == 0 ==> r == Err::<(Coin, PacketPlan), ContractError>(
            ContractError::InvalidTokenAmount,
        ),
        msg.token.amount != 0 ==> {
            if !funds_contain(funds@, msg.token) {
                r == Err::<(Coin, PacketPlan), ContractError>(ContractError::FundsMismatch)
            } else {
                match pool {
                    None => r == Err::<(Coin, PacketPlan), ContractError>(
                        ContractError::PoolNotFound,
                    ),
                    Some(p) => if p.supply.amount == 0 {
                        r == Err::<(Coin, PacketPlan), ContractError>(ContractError::EmptyPool)
                    } else if p.status != PoolStatus::Active {
                        r == Err::<(Coin, PacketPlan), ContractError>(
                            ContractError::NotReadyForSwap,
                        )
                    } else {
                        match deposit_single_spec(amm_of(p), msg.token) {
                            Ok(s) => r matches Ok((c, pk)) && c == (Coin {
                                denom: p.supply.denom,
                                amount: s as u128,
                            }) && token_packet(
                                pk,
                                p.counter_party_channel,
                                InterchainMessageType::SingleAssetDeposit,
                                now,
                                None,
                                None,
                                Some(seq![c]),
                            ),
                            Err(e) => r == Err::<(Coin, PacketPlan), ContractError>(e),
                        }
                    },
                }
            }
        },
{
    match msg.validate_basic() {
        Ok(_) => {},
        Err(e) => {
            return Err(e);
        },
    }
    if !has_funds(funds, &msg.token) {
        return Err(ContractError::FundsMismatch);
    }
    let p = match pool {
        Some(p) => p,
        None => {
            return Err(ContractError::PoolNotFound);
        },
    };
    if p.supply.amount == 0 {
        return Err(ContractError::EmptyPool);
    }
    if p.status != PoolStatus::Active {
        return Err(ContractError::NotReadyForSwap);
    }
    let fee_rate = p.swap_fee;
    let amm = InterchainMarketMaker { pool: p, fee_rate };
    let c = match amm.deposit_single_asset(&msg.token) {
        Ok(c) => c,
        Err(e) => {
            return Err(e);
        },
    };
    let pk = token_packet_plan(
        amm.pool.counter_party_channel.clone(),
        InterchainMessageType::SingleAssetDeposit,
        now,
        None,
        None,
        Some(one_coin(c.duplicate())),
    );
    Ok((c, pk))
}

/// The two deposits of a two-sided deposit request.
pub open spec fn deposit_tokens(msg: MsgMakeMultiAssetDepositRequest) -> Seq<Coin> {
    seq![msg.deposits@[0].balance, msg.deposits@[1].balance]
}

/// A coin-by-coin copy of `coins`.
fn copy_coins(coins: &Vec<Coin>) -> (r: Vec<Coin>)
    ensures
        r@ == coins@,
{
    let mut out: Vec<Coin> = Vec::new();
    let mut i: usize = 0;
    while i < coins.len()
        invariant
            i <= coins@.len(),
            out@ == coins@.subrange(0, i as int),
        decreases coins.len() - i,
    {
        out.push(coins[i].duplicate());
        proof {
            assert(out@ =~= coins@.subrange(0, i + 1));
        }
        i = i + 1;
    }
    proof {
        assert(coins@.subrange(0, coins@.len() as int) =~= coins@);
    }
    out
}

/// A two-sided deposit is opened on this chain: one of its two deposits is sent with the
/// request into an active pool. Returns the shares both deposits issue, and the record
/// of the new order (see `deposit_recorded`) with its packet. `counter` is the stored
/// order counter and `order_id` the id the maker's address and the next counter give.
pub fn make_multi_asset_deposit(
    msg: &MsgMakeMultiAssetDepositRequest,
    pool: Option<InterchainLiquidityPool>,
    funds: &Vec<Coin>,
    counter: u64,
    order_id: String,
    height: u64,
    now: u64,
) -> (r: Result<(Vec<Coin>, DepositOrderRecord), ContractError>)
    requires
        pool is Some ==> msg.deposits@.len() >= 2,
        pool matches Some(p) ==> (p.status == PoolStatus::Active && (funds_contain(
            funds@,
            msg.deposits@[0].balance,
        ) || funds_contain(funds@, msg.deposits@[1].balance)) ==> {
            &&& forall|k: int|
                0 <= k < 2 && #[trigger] deposit_multi_spec(p, deposit_tokens(*msg), k) is Ok
                    ==> issue_defined(p, deposit_tokens(*msg)[k])
            &&& counter < u64::MAX
        }),
        now + DEFAULT_TIMEOUT_TIMESTAMP_OFFSET <= u64::MAX,
    ensures
        match pool {
            None => r == Err::<(Vec<Coin>, DepositOrderRecord), ContractError>(
                ContractError::PoolNotFound,
            ),
            Some(p) => if !funds_contain(funds@, msg.deposits@[0].balance) && !funds_contain(
                funds@,
                msg.deposits@[1].balance,
            ) {
                r == Err::<(Vec<Coin>, DepositOrderRecord), ContractError>(
                    ContractError::FundsMismatch,
                )
            } else if p.status != PoolStatus::Active {
                r == Err::<(Vec<Coin>, DepositOrderRecord), ContractError>(
                    ContractError::NotReadyForSwap,
                )
            } else {
                match deposit_multi_spec(p, deposit_tokens(*msg), 2) {
                    Ok(s) => r matches Ok((v, rec)) && v@ == s && deposit_recorded(
                        *msg,
                        p,
                        counter,
                        order_id,
                        s,
                        height,
                        now,
                        rec,
                    ),
                    Err(e) => r == Err::<(Vec<Coin>, DepositOrderRecord), ContractError>(e),
                }
            },
        },
{
    let p = match pool {
        Some(p) => p,
        None => {
            return Err(ContractError::PoolNotFound);
        },
    };
    if !has_funds(funds, &msg.deposits[0].balance) && !has_funds(funds, &msg.deposits[1].balance) {
        return Err(ContractError::FundsMismatch);
    }
    if p.status != PoolStatus::Active {
        return Err(ContractError::NotReadyForSwap);
    }
    let fee_rate = p.swap_fee;
    let amm = InterchainMarketMaker { pool: p, fee_rate };
    let mut tokens: Vec<Coin> = Vec::new();
    tokens.push(msg.deposits[0].balance.duplicate());
    tokens.push(msg.deposits[1].balance.duplicate());
    proof {
        assert(tokens@ =~= deposit_tokens(*msg));
    }
    let shares = match amm.deposit_multi_asset(tokens.as_slice()) {
        Ok(v) => v,
        Err(e) => {
            return Err(e);
        },
    };
    let rec = open_deposit_order(msg, &amm.pool, counter, order_id, copy_coins(&shares), height, now);
    Ok((shares, rec))
}

/// The order that a two-sided deposit request opens, pending, with the request's two
/// deposits, made by the first depositor and to be taken by the second.
pub fn new_deposit_order(msg: &MsgMakeMultiAssetDepositRequest, order_id: String, height: u64) -> (r:
    MultiAssetDepositOrder)
    requires
        msg.deposits@.len() >= 2,
    ensures
        r.id == order_id,
        r.chain_id == msg.chain_id,
        r.pool_id == msg.pool_id,
        r.source_maker == msg.deposits@[0].sender,
        r.destination_taker == msg.deposits@[1].sender,
        r.deposits@ == deposit_tokens(*msg),
        r.status == OrderStatus::Pending,
        r.created_at == height,
{
    MultiAssetDepositOrder {
        id: order_id,
        chain_id: msg.chain_id.clone(),
        pool_id: msg.pool_id.clone(),
        source_maker: msg.deposits[0].sender.clone(),
        destination_taker: msg.deposits[1].sender.clone(),
        deposits: get_coins_from_deposits(&msg.deposits),
        status: OrderStatus::Pending,
        created_at: height,
    }
}

/// What an accepted two-sided deposit records and sends: the next order counter, the
/// pending order, the keys it is stored under, and the packet to the other chain.
#[derive(Clone, Debug, PartialEq, Eq)]
pub struct DepositOrderRecord {
    pub counter: u64,
    pub order: MultiAssetDepositOrder,
    pub order_key: String,
    pub active_key: String,
    pub packet: PacketPlan,
}

/// `rec` records the two-sided deposit `msg` into `pool`: the order counter grows by one,
/// the order `order_id` opens pending at `height` with the request's two deposits, made
/// by the first depositor for the second, stored under `pool id - order id` and under
/// `maker - pool id - taker`; the packet, on the pool's channel, carries the shares
/// `pool_tokens` and the order id, and times out 600 seconds after `now`.
pub open spec fn deposit_recorded(
    msg: MsgMakeMultiAssetDepositRequest,
    pool: InterchainLiquidityPool,
    counter: u64,
    order_id: String,
    pool_tokens: Seq<Coin>,
    height: u64,
    now: u64,
    rec: DepositOrderRecord,
) -> bool {
    &&& rec.counter == counter + 1
    &&& rec.order.id == order_id
    &&& rec.order.chain_id == msg.chain_id
    &&& rec.order.pool_id == msg.pool_id
    &&& rec.order.source_maker == msg.deposits@[0].sender
    &&& rec.order.destination_taker == msg.deposits@[1].sender
    &&& rec.order.deposits@ == deposit_tokens(msg)
    &&& rec.order.status == OrderStatus::Pending
    &&& rec.order.created_at == height
    &&& rec.order_key@ == msg.pool_id@ + seq!['-'] + order_id@
    &&& rec.active_key@ == msg.deposits@[0].sender@ + seq!['-'] + msg.pool_id@ + seq!['-']
        + msg.deposits@[1].sender@
    &&& rec.packet.channel == pool.counter_party_channel
    &&& rec.packet.msg_type == InterchainMessageType::MakeMultiDeposit
    &&& rec.packet.timeout_seconds == now + DEFAULT_TIMEOUT_TIMESTAMP_OFFSET
    &&& rec.packet.state_change is Some
    &&& rec.packet.state_change->0 == (StateChange {
        pool_tokens: rec.packet.state_change->0.pool_tokens,
        multi_deposit_order_id: Some(order_id),
        ..no_change()
    })
    &&& rec.packet.state_change->0.pool_tokens is Some
    &&& rec.packet.state_change->0.pool_tokens->0@ == pool_tokens
}

/// Records an accepted two-sided deposit: see `deposit_recorded`. `order_id` is the id
/// the maker's address and the next counter give the order.
pub fn open_deposit_order(
    msg: &MsgMakeMultiAssetDepositRequest,
    pool: &InterchainLiquidityPool,
    counter: u64,
    order_id: String,
    pool_tokens: Vec<Coin>,
    height: u64,
    now: u64,
) -> (r: DepositOrderRecord)
    requires
        msg.deposits@.len() >= 2,
        counter < u64::MAX,
        now + DEFAULT_TIMEOUT_TIMESTAMP_OFFSET <= u64::MAX,
    ensures
        deposit_recorded(*msg, *pool, counter, order_id, pool_tokens@, height, now, r),
{
    let order_key = order_key(&msg.pool_id, &order_id);
    let active_key = active_order_key(&msg.deposits[0].sender, &msg.pool_id, &msg.deposits[1].sender);
    let order = new_deposit_order(msg, order_id.clone(), height);
    let change = StateChange {
        in_tokens: None,
        out_tokens: None,
        pool_tokens: Some(pool_tokens),
        pool_id: None,
        multi_deposit_order_id: Some(order_id),
        source_chain_id: None,
        shares: None,
    };
    DepositOrderRecord {
        counter: counter + 1,
        order,
        order_key,
        active_key,
        packet: packet(
            pool.counter_party_channel.clone(),
            InterchainMessageType::MakeMultiDeposit,
            Some(change),
            now,
        ),
    }
}

/// A pending deposit order may be cancelled by its maker; a cancel packet goes out on
/// the pool's channel.
pub fn cancel_multi_asset_deposit(
    pool: &Option<InterchainLiquidityPool>,
    order: &Option<MultiAssetDepositOrder>,
    sender: &String,
    now: u64,
) -> (r: Result<PacketPlan, ContractError>)
    requires
        now + DEFAULT_TIMEOUT_TIMESTAMP_OFFSET <= u64::MAX,
    ensures
        pool is None ==> r == Err::<PacketPlan, ContractError>(ContractError::PoolNotFound),
        pool matches Some(p) ==> match order {
            None => r == Err::<PacketPlan, ContractError>(ContractError::ErrOrderNotFound),
            Some(o) => if o.source_maker@ != sender@ {
                r == Err::<PacketPlan, ContractError>(ContractError::InvalidSender)
            } else if o.status != OrderStatus::Pending {
                r == Err::<PacketPlan, ContractError>(ContractError::ErrOrderAlreadyCompleted)
            } else {
                r == Ok::<PacketPlan, ContractError>(
                    packet_spec(
                        p.counter_party_channel,
                        InterchainMessageType::CancelMultiDeposit,
                        None,
                        now,
                    ),
                )
            },
        },
{
    let p = match pool {
        Some(p) => p,
        None => {
            return Err(ContractError::PoolNotFound);
        },
    };
    let o = match order {
        Some(o) => o,
        None => {
            return Err(ContractError::ErrOrderNotFound);
        },
    };
    if o.source_maker != *sender {
        return Err(ContractError::InvalidSender);
    }
    if o.status != OrderStatus::Pending {
        return Err(ContractError::ErrOrderAlreadyCompleted);
    }
    Ok(packet(p.counter_party_channel.clone(), InterchainMessageType::CancelMultiDeposit, None, now))
}

/// The taker's side of a deposit order was sent: a coin of the order's second deposit,
/// of its amount, and of the pool's source denomination.
pub open spec fn taker_funds_ok(funds: Seq<Coin>, source_denom: Seq<char>, second: Coin) -> bool {
    exists|i: int|
        0 <= i < funds.len() && #[trigger] funds[i].denom@ == source_denom && second.amount
            == funds[i].amount && funds[i].denom@ == second.denom@
}

/// A deposit order not yet completed may be taken by its named taker, who sends its
/// side with the request. Returns the shares the order's deposits issue, and the packet
/// carrying them to the other chain on the pool's channel.
pub fn take_multi_asset_deposit(
    pool: Option<InterchainLiquidityPool>,
    order: &Option<MultiAssetDepositOrder>,
    sender: &String,
    funds: &Vec<Coin>,
    now: u64,
) -> (r: Result<(Vec<Coin>, PacketPlan), ContractError>)
    requires
        pool matches Some(p) ==> (order matches Some(o) ==> (o.destination_taker@ == sender@
            && o.status != OrderStatus::Complete ==> {
            &&& o.deposits@.len() >= 2
            &&& forall|k: int|
                0 <= k < o.deposits@.len() && #[trigger] deposit_multi_spec(p, o.deposits@, k) is Ok
                    ==> issue_defined(p, o.deposits@[k])
        })),
        now + DEFAULT_TIMEOUT_TIMESTAMP_OFFSET <= u64::MAX,
    ensures
        match pool {
            None => r == Err::<(Vec<Coin>, PacketPlan), ContractError>(ContractError::PoolNotFound),
            Some(p) => match order {
                None => r == Err::<(Vec<Coin>, PacketPlan), ContractError>(ContractError::ErrOrderNotFound),
                Some(o) => if o.destination_taker@ != sender@ {
                    r == Err::<(Vec<Coin>, PacketPlan), ContractError>(ContractError::ErrFailedMultiAssetDeposit)
                } else if o.status == OrderStatus::Complete {
                    r == Err::<(Vec<Coin>, PacketPlan), ContractError>(ContractError::ErrOrderAlreadyCompleted)
                } else {
                    match first_with_side(p.assets@, PoolSide::SOURCE, 0) {
                        None => r == Err::<(Vec<Coin>, PacketPlan), ContractError>(ContractError::AssetNotFound),
                        Some(i) => if !taker_funds_ok(
                            funds@,
                            p.assets@[i].balance.denom@,
                            o.deposits@[1],
                        ) {
                            r == Err::<(Vec<Coin>, PacketPlan), ContractError>(ContractError::FundsMismatch)
                        } else {
                            match deposit_multi_spec(p, o.deposits@, o.deposits@.len() as int) {
                                Ok(s) => r matches Ok((v, pk)) && v@ == s && token_packet(
                                    pk,
                                    p.counter_party_channel,
                                    InterchainMessageType::TakeMultiDeposit,
                                    now,
                                    None,
                                    None,
                                    Some(s),
                                ),
                                Err(e) => r == Err::<(Vec<Coin>, PacketPlan), ContractError>(e),
                            }
                        },
                    }
                },
            },
        },
{
    let p = match pool {
        Some(p) => p,
        None => {
            return Err(ContractError::PoolNotFound);
        },
    };
    let o = match order {
        Some(o) => o,
        None => {
            return Err(ContractError::ErrOrderNotFound);
        },
    };
    if o.destination_taker != *sender {
        return Err(ContractError::ErrFailedMultiAssetDeposit);
    }
    if o.status == OrderStatus::Complete {
        return Err(ContractError::ErrOrderAlreadyCompleted);
    }
    let token = match p.find_asset_by_side(PoolSide::SOURCE) {
        Ok(t) => t,
        Err(e) => {
            return Err(e);
        },
    };
    let mut ok = false;
    let mut i: usize = 0;
    while i < funds.len()
        invariant
            i <= funds@.len(),
            o.deposits@.len() >= 2,
            ok == exists|j: int|
                0 <= j < i && #[trigger] funds@[j].denom@ == token.balance.denom@
                    && o.deposits@[1].amount == funds@[j].amount && funds@[j].denom@
                    == o.deposits@[1].denom@,
        decreases funds.len() - i,
    {
        if funds[i].denom == token.balance.denom && o.deposits[1].amount == funds[i].amount
            && funds[i].denom == o.deposits[1].denom {
            ok = true;
        }
        i = i + 1;
    }
    if !ok {
        return Err(ContractError::FundsMismatch);
    }
    let fee_rate = p.swap_fee;
    let amm = InterchainMarketMaker { pool: p, fee_rate };
    let shares = match amm.deposit_multi_asset(o.deposits.as_slice()) {
        Ok(v) => v,
        Err(e) => {
            return Err(e);
        },
    };
    let pk = token_packet_plan(
        amm.pool.counter_party_channel.clone(),
        InterchainMessageType::TakeMultiDeposit,
        now,
        None,
        None,
        Some(copy_coins(&shares)),
    );
    Ok((shares, pk))
}

/// The coin of `refunds` (the last one) in `denom`, or `None`.
pub open spec fn payout_of(refunds: Seq<Coin>, denom: Seq<char>) -> Option<Coin> {
    match last_coin_with_denom(refunds, denom, refunds.len() as int) {
        Some(j) => Some(refunds[j]),
        None => None,
    }
}

/// `c` is the payout of `refunds` in `denom`, or a zero coin named `mock` where there
/// is none.
pub open spec fn is_payout(c: Coin, refunds: Seq<Coin>, denom: Seq<char>) -> bool {
    match payout_of(refunds, denom) {
        Some(p) => c == p,
        None => c.denom@ == seq!['m', 'o', 'c', 'k'] && c.amount == 0,
    }
}

/// The last coin of `refunds` in `denom`, or a zero coin named `mock`.
fn select_payout(refunds: &Vec<Coin>, denom: &String) -> (r: Coin)
    ensures
        is_payout(r, refunds@, denom@),
{
    let mock = "mock";
    proof {
        reveal_strlit("mock");
    }
    let mut out = Coin { denom: mock.to_owned(), amount: 0 };
    let mut i: usize = 0;
    while i < refunds.len()
        invariant
            i <= refunds@.len(),
            match last_coin_with_denom(refunds@, denom@, i as int) {
                Some(j) => out == refunds@[j],
                None => out.denom@ == seq!['m', 'o', 'c', 'k'] && out.amount == 0,
            },
        decreases refunds.len() - i,
    {
        if refunds[i].denom == *denom {
            out = refunds[i].duplicate();
        }
        i = i + 1;
    }
    out
}

/// The inputs of a withdrawal that do not make its arithmetic panic.
pub open spec fn withdraw_defined(pool: InterchainLiquidityPool, redeem: int) -> bool {
    let share = share_out_ratio(redeem, pool.supply.amount as int);
    &&& pool.supply.amount != 0
    &&& share <= u128::MAX
    &&& forall|i: int|
        0 <= i < pool.assets@.len() && withdraw_ok_upto(pool.assets@, share, i) ==> asset_out(
            #[trigger] pool.assets@[i].balance.amount as int,
            share,
        ) <= u128::MAX
}

/// A transfer of `amount` share tokens (the token contract `token`) from `owner` to
/// `recipient`.
#[derive(Clone, Debug, PartialEq, Eq)]
pub struct LpTransferFrom {
    pub token: String,
    pub owner: String,
    pub recipient: String,
    pub amount: u128,
}

/// Shares of a pool are burnt for its assets. The pool's share token (`lp_token`, the
/// token contract) must exist. Returns what is paid out of the source asset and of the
/// destination asset, the transfer of the shares from `sender` to this contract, and
/// the packet on the pool's channel carrying the shares in and the two payouts out.
pub fn multi_asset_withdraw(
    pool: Option<InterchainLiquidityPool>,
    lp_token: &Option<String>,
    pool_token: &Coin,
    sender: &String,
    contract_addr: &String,
    now: u64,
) -> (r: Result<(Coin, Coin, LpTransferFrom, PacketPlan), ContractError>)
    requires
        pool matches Some(p) ==> (lp_token is Some ==> withdraw_defined(p, pool_token.amount as int)),
        now + DEFAULT_TIMEOUT_TIMESTAMP_OFFSET <= u64::MAX,
    ensures
        match pool {
            None => r == Err::<(Coin, Coin, LpTransferFrom, PacketPlan), ContractError>(ContractError::PoolNotFound),
            Some(p) => if lp_token is None {
                r == Err::<(Coin, Coin, LpTransferFrom, PacketPlan), ContractError>(ContractError::LpTokenNotInitialized)
            } else {
                let share = share_out_ratio(pool_token.amount as int, p.supply.amount as int);
                if !withdraw_ok_upto(p.assets@, share, p.assets@.len() as int) {
                    r == Err::<(Coin, Coin, LpTransferFrom, PacketPlan), ContractError>(ContractError::InvalidAssetOut)
                } else {
                    match (
                        first_with_side(p.assets@, PoolSide::SOURCE, 0),
                        first_with_side(p.assets@, PoolSide::DESTINATION, 0),
                    ) {
                        (Some(si), Some(di)) => r matches Ok((so, dout, t, pk)) && {
                            let refunds = p.assets@.map_values(
                                |a: crate::ics101::market::PoolAsset|
                                    Coin {
                                        denom: a.balance.denom,
                                        amount: asset_out(a.balance.amount as int, share) as u128,
                                    },
                            );
                            &&& is_payout(so, refunds, p.assets@[si].balance.denom@)
                            &&& is_payout(dout, refunds, p.assets@[di].balance.denom@)
                            &&& t == (LpTransferFrom {
                                token: lp_token->0,
                                owner: *sender,
                                recipient: *contract_addr,
                                amount: pool_token.amount,
                            })
                            &&& token_packet(
                                pk,
                                p.counter_party_channel,
                                InterchainMessageType::MultiWithdraw,
                                now,
                                Some(seq![*pool_token]),
                                Some(seq![so, dout]),
                                Some(seq![*pool_token]),
                            )
                        },
                        _ => r == Err::<(Coin, Coin, LpTransferFrom, PacketPlan), ContractError>(ContractError::AssetNotFound),
                    }
                }
            },
        },
{
    let p = match pool {
        Some(p) => p,
        None => {
            return Err(ContractError::PoolNotFound);
        },
    };
    let token = match lp_token {
        Some(t) => t.clone(),
        None => {
            return Err(ContractError::LpTokenNotInitialized);
        },
    };
    let fee_rate = p.swap_fee;
    let amm = InterchainMarketMaker { pool: p, fee_rate };
    let refund_assets = match amm.multi_asset_withdraw(pool_token.duplicate()) {
        Ok(v) => v,
        Err(e) => {
            return Err(e);
        },
    };
    let source = match amm.pool.find_asset_by_side(PoolSide::SOURCE) {
        Ok(a) => a,
        Err(e) => {
            return Err(e);
        },
    };
    let destination = match amm.pool.find_asset_by_side(PoolSide::DESTINATION) {
        Ok(a) => a,
        Err(e) => {
            return Err(e);
        },
    };
    proof {
        let share = share_out_ratio(pool_token.amount as int, amm.pool.supply.amount as int);
        assert(refund_assets@ =~= amm.pool.assets@.map_values(
            |a: crate::ics101::market::PoolAsset|
                Coin {
                    denom: a.balance.denom,
                    amount: asset_out(a.balance.amount as int, share) as u128,
                },
        ));
    }
    let source_out = select_payout(&refund_assets, &source.balance.denom);
    let destination_out = select_payout(&refund_assets, &destination.balance.denom);
    let transfer = LpTransferFrom {
        token,
        owner: sender.clone(),
        recipient: contract_addr.clone(),
        amount: pool_token.amount,
    };
    let mut outs: Vec<Coin> = Vec::new();
    outs.push(source_out.duplicate());
    outs.push(destination_out.duplicate());
    proof {
        assert(outs@ =~= seq![source_out, destination_out]);
    }
    let pk = token_packet_plan(
        amm.pool.counter_party_channel.clone(),
        InterchainMessageType::MultiWithdraw,
        now,
        Some(one_coin(pool_token.duplicate())),
        Some(outs),
        Some(one_coin(pool_token.duplicate())),
    );
    Ok((source_out, destination_out, transfer, pk))
}

/// The least a swap may return: the requested amount out less the slippage allowed, in
/// basis points.
pub open spec fn min_out(amount_out: int, slippage: int) -> int {
    amount_out * (MAXIMUM_SLIPPAGE - slippage) / (MAXIMUM_SLIPPAGE as int)
}

/// The inputs of a swap request that do not make its arithmetic panic.
pub open spec fn swap_request_defined(p: InterchainLiquidityPool, msg: MsgSwapRequest) -> bool {
    &&& match msg.swap_type {
        SwapMsgType::LEFT => swap_defined(amm_of(p), msg.token_in, msg.token_out.denom@),
        SwapMsgType::RIGHT => offer_defined(amm_of(p), msg.token_in, msg.token_out),
    }
    &&& msg.slippage <= MAXIMUM_SLIPPAGE
    &&& msg.token_out.amount * (MAXIMUM_SLIPPAGE - msg.slippage) <= u128::MAX
}

/// What a swap request computes: for a left swap, the amount out for the amount in;
/// for a right swap, the amount in for the amount out.
pub open spec fn swap_request_spec(p: InterchainLiquidityPool, msg: MsgSwapRequest) -> Result<
    int,
    ContractError,
> {
    match msg.swap_type {
        SwapMsgType::LEFT => swap_spec(amm_of(p), msg.token_in, msg.token_out.denom@),
        SwapMsgType::RIGHT => offer_spec(amm_of(p), msg.token_in, msg.token_out),
    }
}

/// A swap on an active pool, with its amount in sent along. Refused where the computed
/// amount is below the requested amount out less the allowed slippage. Returns the kind
/// of packet, the computed coin, and the packet carrying it out on the pool's channel.
pub fn swap(pool: Option<InterchainLiquidityPool>, msg: &MsgSwapRequest, funds: &Vec<Coin>, now: u64) -> (r:
    Result<(InterchainMessageType, Coin, PacketPlan), ContractError>)
    requires
        pool matches Some(p) ==> (p.status == PoolStatus::Active && funds_contain(funds@, msg.token_in)
            ==> swap_request_defined(p, *msg)),
        now + DEFAULT_TIMEOUT_TIMESTAMP_OFFSET <= u64::MAX,
    ensures
        match pool {
            None => r == Err::<(InterchainMessageType, Coin, PacketPlan), ContractError>(
                ContractError::PoolNotFound,
            ),
            Some(p) => if p.status != PoolStatus::Active {
                r == Err::<(InterchainMessageType, Coin, PacketPlan), ContractError>(
                    ContractError::NotReadyForSwap,
                )
            } else if !funds_contain(funds@, msg.token_in) {
                r == Err::<(InterchainMessageType, Coin, PacketPlan), ContractError>(
                    ContractError::FundsMismatch,
                )
            } else {
                match swap_request_spec(p, *msg) {
                    Err(e) => r == Err::<(InterchainMessageType, Coin, PacketPlan), ContractError>(e),
                    Ok(x) => if x < min_out(msg.token_out.amount as int, msg.slippage as int) {
                        r == Err::<(InterchainMessageType, Coin, PacketPlan), ContractError>(
                            ContractError::FailedOnSwapReceived,
                        )
                    } else {
                        r matches Ok((t, c, pk)) && c.amount == x && token_packet(
                            pk,
                            p.counter_party_channel,
                            t,
                            now,
                            None,
                            Some(seq![c]),
                            None,
                        ) && t == (match msg.swap_type {
                            SwapMsgType::LEFT => InterchainMessageType::LeftSwap,
                            SwapMsgType::RIGHT => InterchainMessageType::RightSwap,
                        }) && c.denom@ == (match msg.swap_type {
                            SwapMsgType::LEFT => msg.token_out.denom@,
                            SwapMsgType::RIGHT => msg.token_in.denom@,
                        })
                    },
                }
            },
        },
        r matches Ok((_, c, _)) ==> c.amount >= min_out(msg.token_out.amount as int, msg.slippage as int),
{
    let p = match pool {
        Some(p) => p,
        None => {
            return Err(ContractError::PoolNotFound);
        },
    };
    if p.status != PoolStatus::Active {
        return Err(ContractError::NotReadyForSwap);
    }
    if !has_funds(funds, &msg.token_in) {
        return Err(ContractError::FundsMismatch);
    }
    let fee_rate = p.swap_fee;
    let amm = InterchainMarketMaker { pool: p, fee_rate };
    let (msg_type, token_out) = match msg.swap_type {
        SwapMsgType::LEFT => {
            match amm.compute_swap(msg.token_in.duplicate(), msg.token_out.denom.as_str()) {
                Ok(c) => (InterchainMessageType::LeftSwap, c),
                Err(e) => {
                    return Err(e);
                },
            }
        },
        SwapMsgType::RIGHT => {
            match amm.compute_offer_amount(msg.token_in.duplicate(), msg.token_out.duplicate()) {
                Ok(c) => (InterchainMessageType::RightSwap, c),
                Err(e) => {
                    return Err(e);
                },
            }
        },
    };
    let factor = MAXIMUM_SLIPPAGE - msg.slippage;
    let expected = msg.token_out.amount * (factor as u128) / (MAXIMUM_SLIPPAGE as u128);
    if token_out.amount < expected {
        return Err(ContractError::FailedOnSwapReceived);
    }
    let pk = token_packet_plan(
        amm.pool.counter_party_channel.clone(),
        msg_type,
        now,
        None,
        Some(one_coin(token_out.duplicate())),
        None,
    );
    Ok((msg_type, token_out, pk))
}

/// What a left swap on the pool would return, for a query.
pub fn query_left_swap(pool: Option<InterchainLiquidityPool>, token_in: Coin, token_out: Coin) -> (r:
    Result<Coin, ContractError>)
    requires
        pool matches Some(p) ==> swap_defined(amm_of(p), token_in, token_out.denom@),
    ensures
        match pool {
            None => r == Err::<Coin, ContractError>(ContractError::PoolNotFound),
            Some(p) => if p.status != PoolStatus::Active {
                r == Err::<Coin, ContractError>(ContractError::NotReadyForSwap)
            } else {
                match swap_spec(amm_of(p), token_in, token_out.denom@) {
                    Ok(x) => r matches Ok(c) && c.amount == x && c.denom@ == token_out.denom@,
                    Err(e) => r == Err::<Coin, ContractError>(e),
                }
            },
        },
{
    let p = match pool {
        Some(p) => p,
        None => {
            return Err(ContractError::PoolNotFound);
        },
    };
    if p.status != PoolStatus::Active {
        return Err(ContractError::NotReadyForSwap);
    }
    let fee_rate = p.swap_fee;
    let amm = InterchainMarketMaker { pool: p, fee_rate };
    amm.compute_swap(token_in, token_out.denom.as_str())
}

/// What a right swap on the pool would cost, for a query.
pub fn query_right_swap(pool: Option<InterchainLiquidityPool>, token_in: Coin, token_out: Coin) -> (r:
    Result<Coin, ContractError>)
    requires
        pool matches Some(p) ==> offer_defined(amm_of(p), token_in, token_out),
    ensures
        match pool {
            None => r == Err::<Coin, ContractError>(ContractError::PoolNotFound),
            Some(p) => if p.status != PoolStatus::Active {
                r == Err::<Coin, ContractError>(ContractError::NotReadyForSwap)
            } else {
                match offer_spec(amm_of(p), token_in, token_out) {
                    Ok(x) => r == Ok::<Coin, ContractError>(
                        Coin { denom: token_in.denom, amount: x as u128 },
                    ),
                    Err(e) => r == Err::<Coin, ContractError>(e),
                }
            },
        },
{
    let p = match pool {
        Some(p) => p,
        None => {
            return Err(ContractError::PoolNotFound);
        },
    };
    if p.status != PoolStatus::Active {
        return Err(ContractError::NotReadyForSwap);
    }
    let fee_rate = p.swap_fee;
    let amm = InterchainMarketMaker { pool: p, fee_rate };
    amm.compute_offer_amount(token_in, token_out)
}

/// What burning `amount` shares of the pool would pay out, for a query.
pub fn query_rate(pool: Option<InterchainLiquidityPool>, pool_id: String, amount: u128) -> (r: Result<
    Vec<Coin>,
    ContractError,
>)
    requires
        pool matches Some(p) ==> withdraw_defined(p, amount as int),
    ensures
        match pool {
            None => r == Err::<Vec<Coin>, ContractError>(ContractError::PoolNotFound),
            Some(p) => {
                let share = share_out_ratio(amount as int, p.supply.amount as int);
                if withdraw_ok_upto(p.assets@, share, p.assets@.len() as int) {
                    r matches Ok(v) && v@.len() == p.assets@.len() && forall|i: int|
                        0 <= i < v@.len() ==> #[trigger] v@[i] == (Coin {
                            denom: p.assets@[i].balance.denom,
                            amount: asset_out(p.assets@[i].balance.amount as int, share) as u128,
                        })
                } else {
                    r == Err::<Vec<Coin>, ContractError>(ContractError::InvalidAssetOut)
                }
            },
        },
{
    let p = match pool {
        Some(p) => p,
        None => {
            return Err(ContractError::PoolNotFound);
        },
    };
    let fee_rate = p.swap_fee;
    let amm = InterchainMarketMaker { pool: p, fee_rate };
    amm.multi_asset_withdraw(Coin { amount, denom: pool_id })
}

/// The description of a pool that a query returns.
pub fn query_interchain_pool(pool: Option<InterchainLiquidityPool>) -> (r: Result<
    InterchainPoolResponse,
    ContractError,
>)
    ensures
        match pool {
            None => r == Err::<InterchainPoolResponse, ContractError>(ContractError::PoolNotFound),
            Some(p) => r matches Ok(resp) && resp == (InterchainPoolResponse {
                id: p.id,
                source_creator: p.source_creator,
                source_chain_id: p.source_chain_id,
                destination_chain_id: p.destination_chain_id,
                destination_creator: p.destination_creator,
                assets: p.assets,
                swap_fee: p.swap_fee,
                supply: p.supply,
                status: p.status,
                counter_party_port: p.counter_party_port,
                counter_party_channel: p.counter_party_channel,
            }),
        },
{
    match pool {
        None => Err(ContractError::PoolNotFound),
        Some(p) => Ok(
            InterchainPoolResponse {
                id: p.id,
                source_creator: p.source_creator,
                source_chain_id: p.source_chain_id,
                destination_chain_id: p.destination_chain_id,
                destination_creator: p.destination_creator,
                assets: p.assets,
                swap_fee: p.swap_fee,
                supply: p.supply,
                status: p.status,
                counter_party_port: p.counter_party_port,
                counter_party_channel: p.counter_party_channel,
            },
        ),
    }
}

/// The admin (`sender`) removes a pool; `NotAllowed` for anyone else. The caller then
/// deletes the pool and its share token record.
pub fn remove_pool(sender: &String, admin: &String) -> (r: Result<(), ContractError>)
    ensures
        r is Ok <==> sender@ == admin@,
        r matches Err(e) ==> e == ContractError::NotAllowed,
{
    if *admin != *sender {
        return Err(ContractError::NotAllowed);
    }
    Ok(())
}

/// The admin (`sender`) names the volume log of a pool; `NotAllowed` for anyone else.
/// Returns the entry to store: the pool and the log's address.
pub fn set_log_address(sender: &String, admin: &String, pool_id: String, address: String) -> (r: Result<
    (String, String),
    ContractError,
>)
    ensures
        sender@ != admin@ ==> r == Err::<(String, String), ContractError>(ContractError::NotAllowed),
        sender@ == admin@ ==> r == Ok::<(String, String), ContractError>((pool_id, address)),
{
    if *admin != *sender {
        return Err(ContractError::NotAllowed);
    }
    Ok((pool_id, address))
}

} // verus!
