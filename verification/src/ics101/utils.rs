//! Helpers of the interchain swap: precision scaling, ratio checks and name checks.
use vstd::prelude::*;
use vstd::string::StringExecFns;
use vstd::string::StringSliceAdditionalSpecFns;

use crate::coin::{pow10_u128, Coin};
use crate::decimal::{pow10, Decimal, Decimal256};
use crate::ics101::error::ContractError;

verus! {

/// 10^18.
pub const MULTIPLIER: u128 = 1_000_000_000_000_000_000u128;

/// Slippage is given in basis points; 10000 is the most a request may ask.
pub const MAXIMUM_SLIPPAGE: u64 = 10000;

/// Reply id of the pool share token instantiation.
pub const INSTANTIATE_TOKEN_REPLY_ID: u64 = 2000;

/// `value` written with `current_precision` decimals, rewritten with `new_precision`.
pub open spec fn adjust_precision_spec(value: int, current_precision: int, new_precision: int) -> Option<int> {
    if current_precision == new_precision {
        Some(value)
    } else if current_precision < new_precision {
        let v = value * pow10((new_precision - current_precision) as nat);
        if v > u128::MAX {
            None
        } else {
            Some(v)
        }
    } else {
        Some(value / pow10((current_precision - new_precision) as nat))
    }
}

/// Rewriting amounts in another precision keeps their order, and a smaller amount fits
/// wherever a larger one does.
pub proof fn lemma_adjust_precision_monotone(v1: int, v2: int, current_precision: int, new_precision: int)
    requires
        0 <= v1 <= v2,
    ensures
        adjust_precision_spec(v2, current_precision, new_precision) is Some ==> adjust_precision_spec(
            v1,
            current_precision,
            new_precision,
        ) is Some,
        adjust_precision_spec(v1, current_precision, new_precision) matches Some(a1)
            ==> (adjust_precision_spec(v2, current_precision, new_precision) matches Some(a2) ==> a1
            <= a2),
{
    if current_precision < new_precision {
        let p = pow10((new_precision - current_precision) as nat);
        crate::decimal::lemma_pow10_monotone(0, (new_precision - current_precision) as nat);
        assert(v1 * p <= v2 * p) by (nonlinear_arith)
            requires
                0 <= v1 <= v2,
                p >= 1,
        ;
    } else if current_precision > new_precision {
        let p = pow10((current_precision - new_precision) as nat);
        crate::decimal::lemma_pow10_monotone(0, (current_precision - new_precision) as nat);
        vstd::arithmetic::div_mod::lemma_div_is_ordered(v1, v2, p);
    }
}

/// A rewritten amount of 128 bits stays within 128 bits and is never negative.
pub proof fn lemma_adjust_precision_nonneg(value: int, current_precision: int, new_precision: int)
    requires
        0 <= value <= u128::MAX,
    ensures
        adjust_precision_spec(value, current_precision, new_precision) matches Some(v) ==> 0 <= v
            <= u128::MAX,
{
    if current_precision < new_precision {
        let p = pow10((new_precision - current_precision) as nat);
        crate::decimal::lemma_pow10_monotone(0, (new_precision - current_precision) as nat);
        assert(value * p >= 0) by (nonlinear_arith)
            requires
                value >= 0,
                p >= 1,
        ;
    } else if current_precision > new_precision {
        let p = pow10((current_precision - new_precision) as nat);
        crate::decimal::lemma_pow10_monotone(0, (current_precision - new_precision) as nat);
        assert(0 <= value / p <= value) by (nonlinear_arith)
            requires
                value >= 0,
                p >= 1,
        {
            vstd::arithmetic::div_mod::lemma_div_is_ordered_by_denominator(value, 1, p);
        }
    }
}

/// Returns `value` rewritten from `current_precision` to `new_precision` decimals:
/// multiplied by a power of ten (an error where that overflows) or divided by one
/// (rounding down).
pub fn adjust_precision(value: u128, current_precision: u8, new_precision: u8) -> (r: Result<u128, ContractError>)
    requires
        current_precision <= new_precision + 38,
        new_precision <= current_precision + 38,
    ensures
        match adjust_precision_spec(value as int, current_precision as int, new_precision as int) {
            Some(v) => r == Ok::<u128, ContractError>(v as u128),
            None => r == Err::<u128, ContractError>(ContractError::Math(crate::decimal::MathError::Overflow)),
        },
{
    if current_precision == new_precision {
        Ok(value)
    } else if current_precision < new_precision {
        let factor = pow10_u128((new_precision - current_precision) as u32);
        match value.checked_mul(factor) {
            Some(v) => Ok(v),
            None => Err(ContractError::Math(crate::decimal::MathError::Overflow)),
        }
    } else {
        let factor = pow10_u128((current_precision - new_precision) as u32);
        proof {
            crate::decimal::lemma_pow10_monotone(0, (current_precision - new_precision) as nat);
        }
        Ok(value / factor)
    }
}

/// Converts a `Decimal` to a `Decimal256` of the same value.
pub fn decimal2decimal256(dec_value: Decimal) -> (r: Result<Decimal256, ContractError>)
    ensures
        r == Ok::<Decimal256, ContractError>(Decimal256 { atomics: dec_value.atomics }),
{
    Ok(Decimal256::from_decimal_atomics(dec_value.atomics))
}

/// The number of decimals of the pool asset of `token`'s denomination, or one where
/// no asset has that denomination.
pub fn get_precision(assets: Vec<crate::ics101::market::PoolAsset>, token: Coin) -> (r: u32)
    ensures
        (exists|i: int| 0 <= i < assets.len() && assets[i].balance.denom@ == token.denom@) ==> ({
            let i = choose|i: int|
                0 <= i < assets.len() && assets[i].balance.denom@ == token.denom@
                    && forall|j: int| 0 <= j < i ==> assets[j].balance.denom@ != token.denom@;
            r == assets[i].decimal
        }),
        (forall|i: int| 0 <= i < assets.len() ==> assets[i].balance.denom@ != token.denom@) ==> r
            == 1,
{
    let mut k: usize = 0;
    while k < assets.len()
        invariant
            k <= assets.len(),
            forall|j: int| 0 <= j < k ==> assets[j].balance.denom@ != token.denom@,
        decreases assets.len() - k,
    {
        if assets[k].balance.denom == token.denom {
            proof {
                let i = choose|i: int|
                    0 <= i < assets.len() && assets[i].balance.denom@ == token.denom@
                        && forall|j: int| 0 <= j < i ==> assets[j].balance.denom@ != token.denom@;
                assert(0 <= k < assets.len() && assets[k as int].balance.denom@ == token.denom@
                    && forall|j: int| 0 <= j < k ==> assets[j].balance.denom@ != token.denom@);
                if i < k {
                } else if i > k {
                }
                assert(i == k);
            }
            return assets[k].decimal;
        }
        k = k + 1;
    }
    1
}

/// The ratio `a / b` of whole amounts, rounded down.
pub open spec fn ratio_spec(a: int, b: int) -> int {
    a / b
}

/// The slippage of the balance ratio against the amount ratio, in basis points.
pub open spec fn slippage_spec(
    source_amount: int,
    destination_amount: int,
    source_balance: int,
    destination_balance: int,
) -> int {
    let expect = source_amount / destination_amount;
    let result = source_balance / destination_balance;
    let diff = if expect > result {
        expect - result
    } else {
        result - expect
    };
    diff * 10000 / expect
}

/// Checks that the pool's balance ratio is within `desire_slippage` basis points of the
/// ratio of the amounts given.
pub fn check_slippage(
    source_amount: u128,
    destination_amount: u128,
    source_balance: u128,
    destination_balance: u128,
    desire_slippage: u64,
) -> (r: Result<(), ContractError>)
    requires
        destination_amount != 0,
        destination_balance != 0,
        desire_slippage <= MAXIMUM_SLIPPAGE ==> source_amount / destination_amount != 0,
        desire_slippage <= MAXIMUM_SLIPPAGE ==> ({
            let expect = source_amount / destination_amount;
            let result = source_balance / destination_balance;
            let diff = if expect > result {
                expect - result
            } else {
                result - expect
            };
            diff * 10000 <= u128::MAX
        }),
    ensures
        desire_slippage > MAXIMUM_SLIPPAGE ==> r == Err::<(), ContractError>(
            ContractError::InvalidSlippage,
        ),
        desire_slippage <= MAXIMUM_SLIPPAGE && slippage_spec(
            source_amount as int,
            destination_amount as int,
            source_balance as int,
            destination_balance as int,
        ) >= desire_slippage ==> r == Err::<(), ContractError>(ContractError::InvalidPairRatio),
        desire_slippage <= MAXIMUM_SLIPPAGE && slippage_spec(
            source_amount as int,
            destination_amount as int,
            source_balance as int,
            destination_balance as int,
        ) < desire_slippage ==> r == Ok::<(), ContractError>(()),
{
    let expect = source_amount / destination_amount;
    let result = source_balance / destination_balance;
    if desire_slippage > MAXIMUM_SLIPPAGE {
        return Err(ContractError::InvalidSlippage);
    }
    let slippage_tolerance = desire_slippage as u128;
    let ratio_diff = if expect > result {
        expect - result
    } else {
        result - expect
    };
    let slippage = ratio_diff * 10000 / expect;
    if slippage >= slippage_tolerance {
        return Err(ContractError::InvalidPairRatio);
    }
    Ok(())
}

/// The first two deposits' balances.
pub fn get_coins_from_deposits(deposits: &Vec<crate::ics101::msg::DepositAsset>) -> (r: Vec<Coin>)
    requires
        deposits.len() >= 2,
    ensures
        r@ == seq![deposits[0].balance, deposits[1].balance],
{
    let mut tokens = Vec::new();
    tokens.push(deposits[0].balance.duplicate());
    tokens.push(deposits[1].balance.duplicate());
    tokens
}


/// The UTF-8 bytes of a string.
pub open spec fn utf8_of(s: String) -> Seq<u8> {
    vstd::utf8::encode_utf8(s@)
}

/// Byte-wise lexicographic order, the order of `String`'s `Ord`.
pub open spec fn lex_le(a: Seq<u8>, b: Seq<u8>) -> bool
    decreases a.len(),
{
    if a.len() == 0 {
        true
    } else if b.len() == 0 {
        false
    } else if a[0] < b[0] {
        true
    } else if a[0] > b[0] {
        false
    } else {
        lex_le(a.drop_first(), b.drop_first())
    }
}

pub proof fn lemma_lex_le_total(a: Seq<u8>, b: Seq<u8>)
    ensures
        lex_le(a, b) || lex_le(b, a),
    decreases a.len(),
{
    if a.len() > 0 && b.len() > 0 && a[0] == b[0] {
        lemma_lex_le_total(a.drop_first(), b.drop_first());
    }
}

pub proof fn lemma_lex_le_transitive(a: Seq<u8>, b: Seq<u8>, c: Seq<u8>)
    requires
        lex_le(a, b),
        lex_le(b, c),
    ensures
        lex_le(a, c),
    decreases a.len(),
{
    if a.len() > 0 && b.len() > 0 && c.len() > 0 && a[0] == b[0] && b[0] == c[0] {
        lemma_lex_le_transitive(a.drop_first(), b.drop_first(), c.drop_first());
    }
}

/// `s` is in ascending byte-wise order.
pub open spec fn sorted_by_bytes(s: Seq<String>) -> bool {
    forall|i: int, j: int| 0 <= i < j < s.len() ==> lex_le(utf8_of(#[trigger] s[i]), utf8_of(#[trigger] s[j]))
}

/// The strings of `parts` joined with `sep` between them.
pub open spec fn join_spec(parts: Seq<String>, sep: Seq<char>) -> Seq<char>
    decreases parts.len(),
{
    if parts.len() == 0 {
        Seq::empty()
    } else if parts.len() == 1 {
        parts[0]@
    } else {
        join_spec(parts.drop_last(), sep) + sep + parts.last()@
    }
}

/// Byte strings each no later than the other are equal.
proof fn lemma_lex_le_antisymmetric(a: Seq<u8>, b: Seq<u8>)
    requires
        lex_le(a, b),
        lex_le(b, a),
    ensures
        a == b,
    decreases a.len(),
{
    if a.len() > 0 && b.len() > 0 {
        lemma_lex_le_antisymmetric(a.drop_first(), b.drop_first());
        assert(a =~= seq![a[0]] + a.drop_first());
        assert(b =~= seq![b[0]] + b.drop_first());
    }
}

/// Strings with the same UTF-8 bytes have the same characters.
proof fn lemma_same_bytes_same_chars(x: String, y: String)
    requires
        utf8_of(x) == utf8_of(y),
    ensures
        x@ == y@,
{
    vstd::utf8::encode_utf8_decode_utf8(x@);
    vstd::utf8::encode_utf8_decode_utf8(y@);
}

/// `s1` and `s2` hold the same characters, string by string.
pub open spec fn same_views(s1: Seq<String>, s2: Seq<String>) -> bool {
    &&& s1.len() == s2.len()
    &&& forall|i: int| 0 <= i < s1.len() ==> (#[trigger] s1[i])@ == s2[i]@
}

/// Two lists of strings, each in byte-wise order, that hold the same strings, hold them
/// in the same order up to strings of equal characters.
proof fn lemma_sorted_unique(s1: Seq<String>, s2: Seq<String>)
    requires
        s1.to_multiset() == s2.to_multiset(),
        sorted_by_bytes(s1),
        sorted_by_bytes(s2),
    ensures
        same_views(s1, s2),
    decreases s1.len(),
{
    broadcast use vstd::multiset::group_multiset_axioms;

    vstd::seq_lib::to_multiset_len(s1);
    vstd::seq_lib::to_multiset_len(s2);
    if s1.len() > 0 {
        let x = s1[0];
        let y = s2[0];
        vstd::seq_lib::to_multiset_contains(s1, x);
        assert(s1.contains(x)) by {
            assert(s1[0] == x);
        }
        assert(s2.contains(x)) by {
            vstd::seq_lib::to_multiset_contains(s2, x);
        }
        vstd::seq_lib::to_multiset_contains(s2, y);
        assert(s2.contains(y)) by {
            assert(s2[0] == y);
        }
        assert(s1.contains(y)) by {
            vstd::seq_lib::to_multiset_contains(s1, y);
        }
        let j = choose|j: int| 0 <= j < s2.len() && s2[j] == x;
        let k = choose|k: int| 0 <= k < s1.len() && s1[k] == y;
        // Both lists start with a smallest string.
        if k > 0 {
            assert(lex_le(utf8_of(s1[0]), utf8_of(s1[k])));
        }
        if j > 0 {
            assert(lex_le(utf8_of(s2[0]), utf8_of(s2[j])));
        } else {
            lemma_lex_le_total(utf8_of(y), utf8_of(x));
        }
        assert(lex_le(utf8_of(x), utf8_of(y)) || k == 0);
        if k == 0 {
            assert(utf8_of(x) == utf8_of(y));
        } else {
            lemma_lex_le_antisymmetric(utf8_of(x), utf8_of(y));
        }
        // The strings of `s2` before `x` all have the bytes of `x`.
        assert forall|i: int| 0 <= i <= j implies #[trigger] utf8_of(s2[i]) == utf8_of(x) by {
            if i > 0 {
                assert(lex_le(utf8_of(s2[0]), utf8_of(s2[i])));
            }
            if i < j {
                assert(lex_le(utf8_of(s2[i]), utf8_of(s2[j])));
            }
            if 0 < i && i < j {
                lemma_lex_le_transitive(utf8_of(s2[i]), utf8_of(s2[j]), utf8_of(y));
                lemma_lex_le_antisymmetric(utf8_of(s2[i]), utf8_of(y));
            } else if i == 0 {
            } else {
            }
        }
        let r1 = s1.drop_first();
        let r2 = s2.remove(j);
        vstd::seq_lib::to_multiset_remove(s2, j);
        vstd::seq_lib::to_multiset_remove(s1, 0);
        assert(s1.remove(0) =~= r1);
        assert(r1.to_multiset() =~= r2.to_multiset());
        assert(sorted_by_bytes(r2)) by {
            assert forall|a: int, b: int| 0 <= a < b < r2.len() implies lex_le(
                utf8_of(#[trigger] r2[a]),
                utf8_of(#[trigger] r2[b]),
            ) by {
                let a2 = if a < j {
                    a
                } else {
                    a + 1
                };
                let b2 = if b < j {
                    b
                } else {
                    b + 1
                };
                assert(r2[a] == s2[a2] && r2[b] == s2[b2]);
            }
        }
        lemma_sorted_unique(r1, r2);
        assert forall|i: int| 0 <= i < s1.len() implies (#[trigger] s1[i])@ == s2[i]@ by {
            if i == 0 {
                lemma_same_bytes_same_chars(x, y);
            } else {
                assert(r1[i - 1] == s1[i]);
                assert(r1[i - 1]@ == r2[i - 1]@);
                if i <= j {
                    // `r2[i - 1]` is `s2[i - 1]`; both it and `s2[i]` have the bytes of `x`.
                    assert(r2[i - 1] == s2[i - 1]);
                    assert(utf8_of(s2[i - 1]) == utf8_of(x));
                    assert(utf8_of(s2[i]) == utf8_of(x));
                    lemma_same_bytes_same_chars(s2[i - 1], s2[i]);
                } else {
                    assert(r2[i - 1] == s2[i]);
                }
            }
        }
    }
}

/// Joining depends only on the characters of the parts.
proof fn lemma_join_views(s1: Seq<String>, s2: Seq<String>, sep: Seq<char>)
    requires
        same_views(s1, s2),
    ensures
        join_spec(s1, sep) == join_spec(s2, sep),
    decreases s1.len(),
{
    if s1.len() > 1 {
        lemma_join_views(s1.drop_last(), s2.drop_last(), sep);
        assert(s1.last()@ == s2.last()@);
    } else if s1.len() == 1 {
        assert(s1[0]@ == s2[0]@);
    }
}

/// The connection id does not depend on the order of the chain ids: byte-wise sorted
/// lists of the same chain ids join to the same id.
pub proof fn lemma_connection_id_order_free(s1: Seq<String>, s2: Seq<String>)
    requires
        s1.to_multiset() == s2.to_multiset(),
        sorted_by_bytes(s1),
        sorted_by_bytes(s2),
    ensures
        join_spec(s1, seq!['/']) == join_spec(s2, seq!['/']),
{
    lemma_sorted_unique(s1, s2);
    lemma_join_views(s1, s2, seq!['/']);
}

/// `r` is a connection id of the chain ids `ids`, as `get_connection_id` states it.
pub open spec fn is_connection_id(ids: Seq<String>, r: Seq<char>) -> bool {
    exists|s: Seq<String>|
        s.to_multiset() == ids.to_multiset() && sorted_by_bytes(s) && r == join_spec(
            s,
            seq!['/'],
        )
}

/// The connection id of a list of chain ids is that of any reordering of it.
pub proof fn lemma_connection_id_of_permutation(a: Seq<String>, b: Seq<String>, r1: Seq<char>, r2: Seq<char>)
    requires
        a.to_multiset() == b.to_multiset(),
        is_connection_id(a, r1),
        is_connection_id(b, r2),
    ensures
        r1 == r2,
{
    let s1 = choose|s: Seq<String>|
        s.to_multiset() == a.to_multiset() && sorted_by_bytes(s) && r1 == join_spec(s, seq!['/']);
    let s2 = choose|s: Seq<String>|
        s.to_multiset() == b.to_multiset() && sorted_by_bytes(s) && r2 == join_spec(s, seq!['/']);
    lemma_connection_id_order_free(s1, s2);
}

/// Whether `a` comes no later than `b` in byte-wise order.
fn bytes_le(a: &[u8], b: &[u8]) -> (r: bool)
    ensures
        r == lex_le(a@, b@),
{
    let mut i: usize = 0;
    proof {
        assert(a@.skip(0) =~= a@);
        assert(b@.skip(0) =~= b@);
    }
    while i < a.len() && i < b.len()
        invariant
            i <= a@.len(),
            i <= b@.len(),
            lex_le(a@, b@) == lex_le(a@.skip(i as int), b@.skip(i as int)),
        decreases a.len() - i,
    {
        if a[i] < b[i] {
            return true;
        }
        if a[i] > b[i] {
            return false;
        }
        proof {
            assert(a@.skip(i as int).drop_first() =~= a@.skip(i + 1));
            assert(b@.skip(i as int).drop_first() =~= b@.skip(i + 1));
        }
        i = i + 1;
    }
    i == a.len()
}

/// `v` in ascending byte-wise order, by insertion.
fn sort_strings(v: Vec<String>) -> (r: Vec<String>)
    ensures
        r@.to_multiset() == v@.to_multiset(),
        sorted_by_bytes(r@),
{
    let mut sorted: Vec<String> = Vec::new();
    let mut k: usize = 0;
    proof {
        assert(v@.subrange(0, 0) =~= Seq::<String>::empty());
        assert(sorted@ =~= Seq::<String>::empty());
    }
    while k < v.len()
        invariant
            k <= v@.len(),
            sorted@.to_multiset() == v@.subrange(0, k as int).to_multiset(),
            sorted_by_bytes(sorted@),
        decreases v.len() - k,
    {
        let x = v[k].clone();
        let mut p: usize = 0;
        while p < sorted.len() && bytes_le(sorted[p].as_str().as_bytes(), x.as_str().as_bytes())
            invariant
                p <= sorted@.len(),
                forall|q: int| 0 <= q < p ==> lex_le(utf8_of(#[trigger] sorted@[q]), utf8_of(x)),
            decreases sorted.len() - p,
        {
            p = p + 1;
        }
        proof {
            if p < sorted@.len() {
                lemma_lex_le_total(utf8_of(sorted@[p as int]), utf8_of(x));
            }
            let s = sorted@;
            let t = s.insert(p as int, x);
            assert forall|i: int, j: int| 0 <= i < j < t.len() implies lex_le(
                utf8_of(#[trigger] t[i]),
                utf8_of(#[trigger] t[j]),
            ) by {
                if j < p {
                } else if j == p {
                } else if i < p {
                    assert(t[j] == s[j - 1]);
                    lemma_lex_le_transitive(utf8_of(s[i]), utf8_of(x), utf8_of(s[p as int]));
                    if j - 1 > p {
                        lemma_lex_le_transitive(utf8_of(s[i]), utf8_of(s[p as int]), utf8_of(s[j - 1]));
                    }
                } else if i == p {
                    if j - 1 > p {
                        lemma_lex_le_transitive(utf8_of(x), utf8_of(s[p as int]), utf8_of(s[j - 1]));
                    }
                } else {
                    assert(t[i] == s[i - 1]);
                    assert(t[j] == s[j - 1]);
                }
            }
            assert(v@.subrange(0, k + 1) =~= v@.subrange(0, k as int).push(v@[k as int]));
        }
        let ghost before = sorted@;
        sorted.insert(p, x);
        proof {
            vstd::seq_lib::to_multiset_insert(before, p as int, x);
            vstd::seq_lib::to_multiset_build(v@.subrange(0, k as int), v@[k as int]);
        }
        k = k + 1;
    }
    proof {
        assert(v@.subrange(0, v@.len() as int) =~= v@);
    }
    sorted
}

/// `parts` joined with `sep` between them.
fn join_strings(parts: &Vec<String>, sep: &str) -> (r: String)
    ensures
        r@ == join_spec(parts@, sep@),
{
    let mut out: String = String::new();
    let mut i: usize = 0;
    while i < parts.len()
        invariant
            i <= parts@.len(),
            out@ == join_spec(parts@.subrange(0, i as int), sep@),
        decreases parts.len() - i,
    {
        proof {
            assert(parts@.subrange(0, i + 1).drop_last() =~= parts@.subrange(0, i as int));
        }
        if i > 0 {
            out.append(sep);
        }
        out.append(parts[i].as_str());
        proof {
            if i == 0 {
                assert(out@ =~= parts@[0]@);
            }
        }
        i = i + 1;
    }
    proof {
        assert(parts@.subrange(0, parts@.len() as int) =~= parts@);
    }
    out
}

/// The connection between two chains: their ids in byte-wise order, joined with `/`.
pub fn get_connection_id(chain_ids: Vec<String>) -> (r: String)
    ensures
        is_connection_id(chain_ids@, r@),
{
    let sorted = sort_strings(chain_ids);
    let slash = "/";
    proof {
        reveal_strlit("/");
    }
    let r = join_strings(&sorted, slash);
    proof {
        assert(slash@ =~= seq!['/']);
        assert(sorted@.to_multiset() == chain_ids@.to_multiset() && sorted_by_bytes(sorted@) && r@
            == join_spec(sorted@, seq!['/']));
    }
    r
}


/// What `sha2::Sha256::digest` returns for `data`.
pub uninterp spec fn sha256_spec(data: Seq<u8>) -> Seq<u8>;

/// The SHA-256 digest of `data`. Calls `sha2::Sha256::digest`, whose output is 32 bytes;
/// the digest itself is named, not stated.
#[verifier::external_body]
pub(crate) fn sha256(data: &[u8]) -> (r: Vec<u8>)
    ensures
        r@ == sha256_spec(data@),
        r@.len() == 32,
{
    <sha2::Sha256 as sha2::Digest>::digest(data).to_vec()
}

/// The lowercase hexadecimal digit of `n` (below 16).
pub open spec fn hex_digit(n: int) -> char {
    if n < 10 {
        (48 + n) as char
    } else {
        (87 + n) as char
    }
}

/// Two lowercase hexadecimal digits per byte, high digit first.
pub open spec fn hex_spec(bytes: Seq<u8>) -> Seq<char>
    decreases bytes.len(),
{
    if bytes.len() == 0 {
        Seq::empty()
    } else {
        hex_spec(bytes.drop_last()) + seq![
            hex_digit(bytes.last() as int / 16),
            hex_digit(bytes.last() as int % 16),
        ]
    }
}

/// `data` in lowercase hexadecimal. Calls `hex::encode`.
#[verifier::external_body]
pub(crate) fn hex_encode(data: &[u8]) -> (r: String)
    ensures
        r@ == hex_spec(data@),
{
    hex::encode(data)
}

/// The denominations of `tokens`, in order.
pub open spec fn denoms_of(tokens: Seq<Coin>) -> Seq<String> {
    tokens.map_values(|c: Coin| c.denom)
}

/// The id of the pool of `tokens` between two chains: `pool` and the hex SHA-256 of
/// the denominations in byte-wise order, concatenated, followed by the connection id.
pub open spec fn pool_id_spec(denoms: Seq<String>, chains: Seq<String>) -> Seq<char> {
    seq!['p', 'o', 'o', 'l'] + hex_spec(
        sha256_spec(vstd::utf8::encode_utf8(join_spec(denoms, Seq::empty()) + join_spec(chains, seq!['/']))),
    )
}

/// The pool id of `tokens` between the `source` and `destination` chains.
pub fn get_pool_id_with_tokens(tokens: &[Coin], source: String, destination: String) -> (r: String)
    ensures
        exists|d: Seq<String>, c: Seq<String>|
            #![trigger pool_id_spec(d, c)]
            d.to_multiset() == denoms_of(tokens@).to_multiset() && sorted_by_bytes(d)
                && c.to_multiset() == seq![source, destination].to_multiset() && sorted_by_bytes(c)
                && r@ == pool_id_spec(d, c),
{
    let mut denoms: Vec<String> = Vec::new();
    let mut i: usize = 0;
    while i < tokens.len()
        invariant
            i <= tokens@.len(),
            denoms@ == denoms_of(tokens@.subrange(0, i as int)),
        decreases tokens.len() - i,
    {
        denoms.push(tokens[i].denom.clone());
        proof {
            assert(denoms@ =~= denoms_of(tokens@.subrange(0, i + 1)));
        }
        i = i + 1;
    }
    proof {
        assert(tokens@.subrange(0, tokens@.len() as int) =~= tokens@);
    }
    let sorted = sort_strings(denoms);
    let mut chan: Vec<String> = Vec::new();
    chan.push(source);
    chan.push(destination);
    proof {
        assert(chan@ =~= seq![source, destination]);
    }
    let connection = get_connection_id(chan);
    let empty = "";
    proof {
        reveal_strlit("");
    }
    let mut res = join_strings(&sorted, empty);
    res.append(connection.as_str());
    let hash = sha256(res.as_str().as_bytes());
    let hex = hex_encode(hash.as_slice());
    let mut pool_id = "pool".to_owned();
    proof {
        reveal_strlit("pool");
        assert(empty@ =~= Seq::<char>::empty());
    }
    pool_id.append(hex.as_str());
    proof {
        let c = choose|c: Seq<String>|
            c.to_multiset() == seq![source, destination].to_multiset() && sorted_by_bytes(c)
                && connection@ == join_spec(c, seq!['/']);
        assert(pool_id@ =~= pool_id_spec(sorted@, c));
    }
    pool_id
}

/// A token name is valid when it is 3 to 50 bytes long.
pub fn is_valid_name(name: &str) -> (r: bool)
    ensures
        r == (3 <= name.spec_bytes().len() <= 50),
{
    let bytes = name.as_bytes();
    if bytes.len() < 3 || bytes.len() > 50 {
        return false;
    }
    true
}

/// Bytes allowed in a token symbol: `-`, `/`, digits and ASCII letters.
pub open spec fn is_symbol_byte(b: u8) -> bool {
    b == 45 || (47 <= b <= 57) || (65 <= b <= 90) || (97 <= b <= 122)
}

/// `bytes` is 3 to `max` bytes of `-`, `/`, digits and ASCII letters.
pub open spec fn symbol_is_valid(bytes: Seq<u8>, max: int) -> bool {
    &&& 3 <= bytes.len() <= max
    &&& forall|i: int| 0 <= i < bytes.len() ==> is_symbol_byte(#[trigger] bytes[i])
}

/// A token symbol is valid when it is 3 to `max_length` (default 12) bytes long and
/// every byte is `-`, `/`, a digit or an ASCII letter.
pub fn is_valid_symbol(symbol: &str, max_length: Option<usize>) -> (r: bool)
    ensures
        r == symbol_is_valid(
            symbol.spec_bytes(),
            match max_length {
                Some(m) => m as int,
                None => 12,
            },
        ),
{
    let max_length = match max_length {
        Some(m) => m,
        None => 12,
    };
    let bytes = symbol.as_bytes();
    if bytes.len() < 3 || bytes.len() > max_length {
        return false;
    }
    let mut i: usize = 0;
    while i < bytes.len()
        invariant
            i <= bytes@.len(),
            bytes@ == symbol.spec_bytes(),
            forall|j: int| 0 <= j < i ==> is_symbol_byte(#[trigger] bytes@[j]),
        decreases bytes.len() - i,
    {
        let byte = bytes[i];
        if (byte != 45) && (byte < 47 || byte > 57) && (byte < 65 || byte > 90) && (byte < 97 || byte > 122) {
            return false;
        }
        i = i + 1;
    }
    true
}

/// The IBC version of interchain swap channels.
pub open spec fn ics101_version() -> Seq<char> {
    "ics101-1"@
}

/// The ordering of an IBC channel.
#[derive(Clone, Copy, Debug, PartialEq, Eq, Structural)]
pub enum ChannelOrder {
    Unordered,
    Ordered,
}

/// Why a channel is refused.
#[derive(Clone, Debug, PartialEq, Eq)]
pub enum ChannelError {
    /// The channel or its counterparty speaks another version.
    InvalidIbcVersion { version: String },
    /// The channel is ordered; interchain swap channels are unordered.
    OnlyOrderedChannel,
}

/// A channel is accepted when it and its counterparty (where known) speak `ics101-1`
/// and it is unordered; the first check that fails is the error.
pub fn enforce_order_and_version(
    channel_version: &String,
    channel_order: ChannelOrder,
    counterparty_version: Option<&String>,
) -> (r: Result<(), ChannelError>)
    ensures
        channel_version@ != ics101_version() ==> r == Err::<(), ChannelError>(
            ChannelError::InvalidIbcVersion { version: *channel_version },
        ),
        channel_version@ == ics101_version() ==> match counterparty_version {
            Some(v) => if v@ != ics101_version() {
                r == Err::<(), ChannelError>(ChannelError::InvalidIbcVersion { version: *v })
            } else if channel_order != ChannelOrder::Unordered {
                r == Err::<(), ChannelError>(ChannelError::OnlyOrderedChannel)
            } else {
                r is Ok
            },
            None => if channel_order != ChannelOrder::Unordered {
                r == Err::<(), ChannelError>(ChannelError::OnlyOrderedChannel)
            } else {
                r is Ok
            },
        },
{
    let expected = "ics101-1".to_owned();
    if *channel_version != expected {
        return Err(ChannelError::InvalidIbcVersion { version: channel_version.clone() });
    }
    if let Some(version) = counterparty_version {
        if *version != expected {
            return Err(ChannelError::InvalidIbcVersion { version: version.clone() });
        }
    }
    if channel_order != ChannelOrder::Unordered {
        return Err(ChannelError::OnlyOrderedChannel);
    }
    Ok(())
}

} // verus!
