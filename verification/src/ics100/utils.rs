//! Order ids, IBC paths and fees of the atomic swap.
use vstd::prelude::*;
use vstd::string::StrSliceExecFns;
use vstd::string::StringExecFns;

use crate::coin::Coin;
use crate::ics100::error::ContractError;
use crate::ics100::state::FeeInfo;
use crate::ics101::utils::{hex_encode, hex_spec, sha256, sha256_spec};

verus! {

/// Fees are counted in ten-thousandths of the amount.
pub const FEE_BASIS_POINT: u64 = 10000;

/// The id of the order made at `path`: the lowercase hex SHA-256 of its UTF-8 bytes.
pub open spec fn order_id_spec(path: Seq<char>) -> Seq<char> {
    hex_spec(sha256_spec(vstd::utf8::encode_utf8(path)))
}

/// The id of the order made at `order_path`.
pub fn generate_order_id(order_path: &str) -> (r: String)
    ensures
        r@ == order_id_spec(order_path@),
{
    let hash = sha256(order_path.as_bytes());
    hex_encode(hash.as_slice())
}

/// The ASCII digit of `d` (below 10).
pub open spec fn decimal_digit(d: int) -> char {
    (48 + d) as char
}

/// `n` written in decimal, without leading zeros.
pub open spec fn decimal_spec(n: nat) -> Seq<char>
    decreases n,
{
    if n < 10 {
        seq![decimal_digit(n as int)]
    } else {
        decimal_spec(n / 10) + seq![decimal_digit((n % 10) as int)]
    }
}

/// The decimal digit `d` (below 10) as text.
fn digit_text(d: u64) -> (r: &'static str)
    requires
        d < 10,
    ensures
        r@ == seq![decimal_digit(d as int)],
{
    if d == 0 {
        proof {
            reveal_strlit("0");
        }
        "0"
    } else if d == 1 {
        proof {
            reveal_strlit("1");
        }
        "1"
    } else if d == 2 {
        proof {
            reveal_strlit("2");
        }
        "2"
    } else if d == 3 {
        proof {
            reveal_strlit("3");
        }
        "3"
    } else if d == 4 {
        proof {
            reveal_strlit("4");
        }
        "4"
    } else if d == 5 {
        proof {
            reveal_strlit("5");
        }
        "5"
    } else if d == 6 {
        proof {
            reveal_strlit("6");
        }
        "6"
    } else if d == 7 {
        proof {
            reveal_strlit("7");
        }
        "7"
    } else if d == 8 {
        proof {
            reveal_strlit("8");
        }
        "8"
    } else {
        proof {
            reveal_strlit("9");
        }
        "9"
    }
}

/// `n` in decimal, without leading zeros.
fn u64_to_decimal(n: u64) -> (r: String)
    ensures
        r@ == decimal_spec(n as nat),
    decreases n,
{
    if n < 10 {
        String::from_str(digit_text(n))
    } else {
        let mut s = u64_to_decimal(n / 10);
        s.append(digit_text(n % 10));
        s
    }
}

/// The IBC path of an order:
/// `channel/{source_channel}/port/{source_port}/channel/{destination_channel}/port/{destination_port}/{sequence}`.
pub open spec fn order_path_spec(
    source_channel: Seq<char>,
    source_port: Seq<char>,
    destination_channel: Seq<char>,
    destination_port: Seq<char>,
    sequence: nat,
) -> Seq<char> {
    "channel/"@ + source_channel + "/port/"@ + source_port + "/channel/"@ + destination_channel
        + "/port/"@ + destination_port + "/"@ + decimal_spec(sequence)
}

/// The IBC path of the order sent on the given channels with `sequence`.
pub fn order_path(
    source_channel: String,
    source_port: String,
    destination_channel: String,
    destination_port: String,
    sequence: u64,
) -> (r: String)
    ensures
        r@ == order_path_spec(
            source_channel@,
            source_port@,
            destination_channel@,
            destination_port@,
            sequence as nat,
        ),
{
    let mut path = "channel/".to_owned();
    path.append(source_channel.as_str());
    path.append("/port/");
    path.append(source_port.as_str());
    path.append("/channel/");
    path.append(destination_channel.as_str());
    path.append("/port/");
    path.append(destination_port.as_str());
    path.append("/");
    let seq = u64_to_decimal(sequence);
    path.append(seq.as_str());
    path
}

/// The number of `/` among the first `n` characters of `s`.
pub open spec fn slashes_before(s: Seq<char>, n: int) -> nat
    decreases n,
{
    if n <= 0 {
        0
    } else {
        slashes_before(s, n - 1) + if s[n - 1] == '/' {
            1nat
        } else {
            0nat
        }
    }
}

/// `s.subrange(a, b)` is the part of `s` after its `k`-th `/` (`k >= 1`), up to the
/// next `/` or the end.
pub open spec fn is_part(s: Seq<char>, k: nat, a: int, b: int) -> bool {
    &&& 1 <= a <= b <= s.len()
    &&& s[a - 1] == '/'
    &&& slashes_before(s, a) == k
    &&& slashes_before(s, b) == k
    &&& (b == s.len() || s[b] == '/')
}

/// More characters hold at least as many `/`.
pub proof fn lemma_slashes_monotone(s: Seq<char>, i: int, j: int)
    requires
        i <= j,
    ensures
        slashes_before(s, i) <= slashes_before(s, j),
    decreases j - i,
{
    if i < j {
        lemma_slashes_monotone(s, i, j - 1);
    }
}

/// The `/` among the first `i` characters of `p + q`, for `i` within `p`, are those of `p`.
proof fn lemma_slashes_prefix(p: Seq<char>, q: Seq<char>, i: int)
    requires
        0 <= i <= p.len(),
    ensures
        slashes_before(p + q, i) == slashes_before(p, i),
    decreases i,
{
    if i > 0 {
        lemma_slashes_prefix(p, q, i - 1);
        assert((p + q)[i - 1] == p[i - 1]);
    }
}

/// The `/` in `p + q` up to `k` characters into `q`: all those of `p`, then those of `q`.
proof fn lemma_slashes_concat(p: Seq<char>, q: Seq<char>, k: int)
    requires
        0 <= k <= q.len(),
    ensures
        slashes_before(p + q, p.len() + k) == slashes_before(p, p.len() as int) + slashes_before(q, k),
    decreases k,
{
    if k == 0 {
        lemma_slashes_prefix(p, q, p.len() as int);
    } else {
        lemma_slashes_concat(p, q, k - 1);
        assert((p + q)[p.len() + k - 1] == q[k - 1]);
    }
}

/// A text without `/` has none among its first `k` characters.
proof fn lemma_no_slashes(s: Seq<char>, k: int)
    requires
        0 <= k <= s.len(),
        !s.contains('/'),
    ensures
        slashes_before(s, k) == 0,
    decreases k,
{
    if k > 0 {
        lemma_no_slashes(s, k - 1);
        assert(s[k - 1] != '/') by {
            if s[k - 1] == '/' {
                assert(s.contains('/'));
            }
        }
    }
}

/// The number of `/` in `s`.
spec fn slash_count(s: Seq<char>) -> nat {
    slashes_before(s, s.len() as int)
}

proof fn lemma_count_concat(p: Seq<char>, q: Seq<char>)
    ensures
        slash_count(p + q) == slash_count(p) + slash_count(q),
{
    lemma_slashes_concat(p, q, q.len() as int);
}

/// Building an order path and reading the taker's source channel back from it gives the
/// order's destination channel, where no channel or port holds a `/`: the path has at
/// least six parts, and its sixth part is that channel.
pub proof fn lemma_taker_channel_of_order_path(
    source_channel: Seq<char>,
    source_port: Seq<char>,
    destination_channel: Seq<char>,
    destination_port: Seq<char>,
    sequence: nat,
)
    requires
        !source_channel.contains('/'),
        !source_port.contains('/'),
        !destination_channel.contains('/'),
        !destination_port.contains('/'),
    ensures
        ({
            let path = order_path_spec(
                source_channel,
                source_port,
                destination_channel,
                destination_port,
                sequence,
            );
            &&& slashes_before(path, path.len() as int) >= 5
            &&& forall|a: int, b: int|
                #[trigger] is_part(path, 5, a, b) ==> path.subrange(a, b) == destination_channel
        }),
{
    reveal_strlit("channel/");
    reveal_strlit("/port/");
    reveal_strlit("/channel/");
    reveal_strlit("/");
    let l1 = "channel/"@;
    let l2 = "/port/"@;
    let l3 = "/channel/"@;
    let l5 = "/"@;
    assert(slash_count(l1) == 1) by {
        reveal_with_fuel(slashes_before, 10);
    }
    assert(slash_count(l2) == 2) by {
        reveal_with_fuel(slashes_before, 8);
    }
    assert(slash_count(l3) == 2) by {
        reveal_with_fuel(slashes_before, 11);
    }
    let sc = source_channel;
    let sp = source_port;
    let dc = destination_channel;
    lemma_no_slashes(sc, sc.len() as int);
    lemma_no_slashes(sp, sp.len() as int);
    lemma_no_slashes(dc, dc.len() as int);
    let p1 = l1 + sc + l2 + sp + l3;
    lemma_count_concat(l1, sc);
    lemma_count_concat(l1 + sc, l2);
    lemma_count_concat(l1 + sc + l2, sp);
    lemma_count_concat(l1 + sc + l2 + sp, l3);
    assert(slash_count(p1) == 5);
    let tail = l2 + destination_port + l5 + decimal_spec(sequence);
    let p2 = p1 + dc;
    let path = order_path_spec(sc, sp, dc, destination_port, sequence);
    assert(path =~= p2 + tail);
    let n1 = p1.len() as int;
    let n2 = p2.len() as int;
    // The fifth `/` ends `p1`.
    assert(p1[n1 - 1] == '/') by {
        assert(p1[n1 - 1] == l3[l3.len() - 1]);
    }
    assert(slashes_before(p1, n1 - 1) == 4);
    // Counting within `path`.
    lemma_slashes_concat(p1, dc, dc.len() as int);
    lemma_slashes_prefix(p2, tail, n2);
    lemma_slashes_prefix(p2, tail, n1 - 1);
    lemma_slashes_prefix(p1, dc, n1 - 1);
    assert(slashes_before(path, n1 - 1) == 4);
    assert(slashes_before(path, n2) == 5);
    assert(tail[0] == '/');
    lemma_slashes_concat(p2, tail, 1);
    assert(slashes_before(tail, 1) == 1);
    assert(slashes_before(path, n2 + 1) == 6);
    lemma_slashes_monotone(path, n2, path.len() as int);
    assert forall|a: int, b: int| #[trigger] is_part(path, 5, a, b) implies path.subrange(a, b)
        == dc by {
        if a < n1 {
            lemma_slashes_monotone(path, a, n1 - 1);
        } else if a > n2 {
            lemma_slashes_monotone(path, n2 + 1, a);
        } else if a > n1 {
            assert(path[a - 1] == dc[a - 1 - n1]);
            assert(dc.contains(path[a - 1]));
        }
        assert(a == n1);
        if b > n2 {
            lemma_slashes_monotone(path, n2 + 1, b);
        } else if b < n2 {
            assert(path[b] == dc[b - n1]);
            assert(dc.contains(path[b]));
        }
        assert(b == n2);
        assert(path.subrange(a, b) =~= dc);
    }
}

/// The source channel of a taker's path: the sixth `/`-separated part of `path`;
/// `InvalidPath` where `path` has fewer than six parts.
pub fn extract_source_channel_for_taker_msg(path: &str) -> (r: Result<String, ContractError>)
    ensures
        r is Ok <==> slashes_before(path@, path@.len() as int) >= 5,
        r matches Ok(x) ==> exists|a: int, b: int|
            #[trigger] is_part(path@, 5, a, b) && x@ == path@.subrange(a, b),
        r matches Err(e) ==> e == ContractError::InvalidPath,
{
    let n = path.unicode_len();
    let mut i: usize = 0;
    let mut count: usize = 0;
    let mut start: usize = 0;
    let mut done = false;
    while i < n && !done
        invariant
            n == path@.len(),
            i <= n,
            count == slashes_before(path@, i as int),
            count <= 5,
            count == 5 ==> 1 <= start <= i && path@[start - 1] == '/' && slashes_before(
                path@,
                start as int,
            ) == 5,
            done ==> count == 5 && i < n && path@[i as int] == '/',
        decreases n - i + if done { 0int } else { 1int },
    {
        let c = path.get_char(i);
        if c == '/' && count == 5 {
            done = true;
        } else {
            if c == '/' {
                count = count + 1;
                if count == 5 {
                    start = i + 1;
                }
            }
            i = i + 1;
        }
    }
    proof {
        lemma_slashes_monotone(path@, i as int, n as int);
    }
    if count < 5 {
        return Err(ContractError::InvalidPath);
    }
    let part = path.substring_char(start, i);
    proof {
        assert(is_part(path@, 5, start as int, i as int));
    }
    Ok(part.to_owned())
}

/// The fee on `amount` at `basis_points`: `amount * basis_points / 10000`, and at
/// least one.
pub open spec fn fee_spec(amount: int, basis_points: int) -> int {
    let fee = amount * basis_points / 10000;
    if fee == 0 {
        1
    } else {
        fee
    }
}

/// The fee on `amount` at `basis_points` can be computed and paid out of `amount`.
pub open spec fn fee_payable(amount: u128, basis_points: u64) -> bool {
    &&& amount * basis_points <= u128::MAX
    &&& fee_spec(amount as int, basis_points as int) <= amount
}

/// Whether the fee on `amount` at `basis_points` can be computed and paid out of it.
pub fn is_fee_payable(amount: u128, basis_points: u64) -> (r: bool)
    ensures
        r == fee_payable(amount, basis_points),
{
    match amount.checked_mul(basis_points as u128) {
        Some(product) => {
            let fee = product / (FEE_BASIS_POINT as u128);
            let fee = if fee == 0 {
                1
            } else {
                fee
            };
            fee <= amount
        },
        None => false,
    }
}

/// A fee of at most the whole amount (`basis_points` up to 10000) can always be paid
/// out of a non-zero amount that fits the product.
pub proof fn lemma_fee_payable(amount: u128, basis_points: u64)
    requires
        1 <= amount,
        basis_points <= FEE_BASIS_POINT,
        amount * basis_points <= u128::MAX,
    ensures
        fee_payable(amount, basis_points),
        1 <= fee_spec(amount as int, basis_points as int) <= amount,
{
    assert(amount * basis_points <= amount * 10000) by (nonlinear_arith)
        requires
            basis_points <= 10000,
            amount >= 1,
    ;
    assert(amount * basis_points / 10000 <= amount) by (nonlinear_arith)
        requires
            amount * basis_points <= amount * 10000,
            amount >= 1,
    ;
}

/// Splits `amount` of `denom` into the fee at `basis_points` and what is left.
fn split_fee(amount: u128, basis_points: u64, denom: String) -> (r: (Coin, Coin))
    requires
        fee_payable(amount, basis_points),
    ensures
        r.0.denom == denom,
        r.1.denom == denom,
        r.0.amount == fee_spec(amount as int, basis_points as int),
        r.1.amount == amount - fee_spec(amount as int, basis_points as int),
{
    let mut fee = amount * (basis_points as u128) / (FEE_BASIS_POINT as u128);
    if fee == 0 {
        fee = 1;
    }
    (Coin { denom: denom.clone(), amount: fee }, Coin { denom, amount: amount - fee })
}

/// The taker's fee on `amount` of `denom`: the fee, what is left, and where the fee goes.
pub fn taker_fee(fee_info: &FeeInfo, amount: u128, denom: String) -> (r: (Coin, Coin, String))
    requires
        fee_payable(amount, fee_info.taker_fee),
    ensures
        r.0.denom == denom && r.1.denom == denom,
        r.0.amount == fee_spec(amount as int, fee_info.taker_fee as int),
        r.0.amount + r.1.amount == amount,
        r.2 == fee_info.treasury,
{
    let (fee, rest) = split_fee(amount, fee_info.taker_fee, denom);
    (fee, rest, fee_info.treasury.clone())
}

/// The maker's fee on `amount` of `denom`: the fee, what is left, and where the fee goes.
pub fn maker_fee(fee_info: &FeeInfo, amount: u128, denom: String) -> (r: (Coin, Coin, String))
    requires
        fee_payable(amount, fee_info.maker_fee),
    ensures
        r.0.denom == denom && r.1.denom == denom,
        r.0.amount == fee_spec(amount as int, fee_info.maker_fee as int),
        r.0.amount + r.1.amount == amount,
        r.2 == fee_info.treasury,
{
    let (fee, rest) = split_fee(amount, fee_info.maker_fee, denom);
    (fee, rest, fee_info.treasury.clone())
}

/// The IBC version of atomic swap channels.
pub open spec fn ics100_version() -> Seq<char> {
    "ics100-1"@
}

/// The ordering of an IBC channel.
#[derive(Clone, Copy, Debug, PartialEq, Eq, Structural)]
pub enum ChannelOrder {
    Unordered,
    Ordered,
}

/// Why a channel is refused.
#[derive(Clone, Debug, PartialEq, Eq)]
pub enum ChannelError {
    /// The channel or its counterparty speaks another version.
    InvalidIbcVersion { version: String },
    /// The channel is ordered; atomic swap channels are unordered.
    OnlyOrderedChannel,
}

/// A channel is accepted when it and its counterparty (where known) speak `ics100-1`
/// and it is unordered; the first check that fails is the error.
pub fn enforce_order_and_version(
    channel_version: &String,
    channel_order: ChannelOrder,
    counterparty_version: Option<&String>,
) -> (r: Result<(), ChannelError>)
    ensures
        channel_version@ != ics100_version() ==> r == Err::<(), ChannelError>(
            ChannelError::InvalidIbcVersion { version: *channel_version },
        ),
        channel_version@ == ics100_version() ==> match counterparty_version {
            Some(v) => if v@ != ics100_version() {
                r == Err::<(), ChannelError>(ChannelError::InvalidIbcVersion { version: *v })
            } else if channel_order != ChannelOrder::Unordered {
                r == Err::<(), ChannelError>(ChannelError::OnlyOrderedChannel)
            } else {
                r is Ok
            },
            None => if channel_order != ChannelOrder::Unordered {
                r == Err::<(), ChannelError>(ChannelError::OnlyOrderedChannel)
            } else {
                r is Ok
            },
        },
{
    let expected = "ics100-1".to_owned();
    if *channel_version != expected {
        return Err(ChannelError::InvalidIbcVersion { version: channel_version.clone() });
    }
    if let Some(version) = counterparty_version {
        if *version != expected {
            return Err(ChannelError::InvalidIbcVersion { version: version.clone() });
        }
    }
    if channel_order != ChannelOrder::Unordered {
        return Err(ChannelError::OnlyOrderedChannel);
    }
    Ok(())
}

} // verus!
