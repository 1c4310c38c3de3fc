//! Thresholds, fees and exchange rates of the liquid staking token. The exchange rate
//! is a `rust_decimal::Decimal`, held here as its mantissa and scale.
use vstd::prelude::*;
use vstd::string::StrSliceExecFns;

use crate::coin::pow10_u128;
use crate::decimal::pow10;
use crate::staking::error::ContractError;

verus! {

/// A non-negative `rust_decimal::Decimal`: `mantissa / 10^scale`, with a mantissa of at
/// most 96 bits and a scale of at most 28.
#[derive(Clone, Copy, Debug, PartialEq, Eq, Structural)]
pub struct Rate {
    pub mantissa: u128,
    pub scale: u32,
}

/// The mantissa fits in 96 bits and the scale is at most 28, as in a `rust_decimal::Decimal`.
pub open spec fn rate_valid(r: Rate) -> bool {
    r.mantissa < 0x1_0000_0000_0000_0000_0000_0000 && r.scale <= 28
}

/// What `rust_decimal::Decimal::checked_div` returns on two non-negative decimals.
pub uninterp spec fn rd_div_spec(a: Rate, b: Rate) -> Option<Rate>;

/// What `rust_decimal::Decimal::checked_mul` returns on two non-negative decimals.
pub uninterp spec fn rd_mul_spec(a: Rate, b: Rate) -> Option<Rate>;

/// `a` rounded to 12 places, away from zero: unchanged with at most 12 places, else the
/// mantissa divided by 10 to the surplus places, rounded up, at scale 12.
pub open spec fn rd_round12_spec(a: Rate) -> Rate {
    if a.scale <= 12 {
        a
    } else {
        let d = pow10((a.scale - 12) as nat);
        Rate {
            mantissa: ((a.mantissa as int) / d + if (a.mantissa as int) % d != 0 {
                1int
            } else {
                0int
            }) as u128,
            scale: 12,
        }
    }
}

/// `a / b`. Calls `rust_decimal::Decimal::checked_div`, which gives `None` for a zero
/// divisor or a quotient beyond 96 bits (a whole number below 2^64 over a non-zero whole
/// number never is); its result is named, not stated, and is a valid decimal.
#[verifier::external_body]
fn rd_div(a: Rate, b: Rate) -> (r: Option<Rate>)
    requires
        rate_valid(a),
        rate_valid(b),
    ensures
        r == rd_div_spec(a, b),
        r matches Some(q) ==> rate_valid(q),
        b.mantissa == 0 ==> r is None,
        a.scale == 0 && b.scale == 0 && a.mantissa <= u64::MAX && b.mantissa != 0 ==> r is Some,
{
    let x = rust_decimal::Decimal::from_i128_with_scale(a.mantissa as i128, a.scale);
    let y = rust_decimal::Decimal::from_i128_with_scale(b.mantissa as i128, b.scale);
    x.checked_div(y).map(|q| Rate { mantissa: q.mantissa() as u128, scale: q.scale() })
}

/// `a * b`. Calls `rust_decimal::Decimal::checked_mul`, which gives `None` where the
/// product is beyond 96 bits; its result is named, not stated, and is a valid decimal.
#[verifier::external_body]
fn rd_mul(a: Rate, b: Rate) -> (r: Option<Rate>)
    requires
        rate_valid(a),
        rate_valid(b),
    ensures
        r == rd_mul_spec(a, b),
        r matches Some(q) ==> rate_valid(q),
{
    let x = rust_decimal::Decimal::from_i128_with_scale(a.mantissa as i128, a.scale);
    let y = rust_decimal::Decimal::from_i128_with_scale(b.mantissa as i128, b.scale);
    x.checked_mul(y).map(|q| Rate { mantissa: q.mantissa() as u128, scale: q.scale() })
}

/// `a` rounded to 12 places, away from zero. Calls
/// `rust_decimal::Decimal::round_dp_with_strategy`, whose source leaves a decimal of at
/// most 12 places as it is and otherwise divides the mantissa down to 12 places, adding
/// one where a nonzero remainder is dropped.
#[verifier::external_body]
fn rd_round12(a: Rate) -> (r: Rate)
    requires
        rate_valid(a),
    ensures
        r == rd_round12_spec(a),
        rate_valid(r),
{
    let x = rust_decimal::Decimal::from_i128_with_scale(a.mantissa as i128, a.scale);
    let q = x.round_dp_with_strategy(12, rust_decimal::RoundingStrategy::AwayFromZero);
    Rate { mantissa: q.mantissa() as u128, scale: q.scale() }
}

/// `a / b` for whole numbers, as `rust_decimal` divides them.
pub fn rate_div_whole(a: u64, b: u64) -> (r: Option<Rate>)
    ensures
        r == rd_div_spec(whole(a), whole(b)),
        r matches Some(q) ==> rate_valid(q),
        b != 0 ==> r is Some,
{
    rd_div(Rate { mantissa: a as u128, scale: 0 }, Rate { mantissa: b as u128, scale: 0 })
}

/// `a * rate` for a whole number `a`, as `rust_decimal` multiplies them.
pub fn rate_mul_whole(a: u64, rate: Rate) -> (r: Option<Rate>)
    requires
        rate_valid(rate),
    ensures
        r == rd_mul_spec(whole(a), rate),
        r matches Some(q) ==> rate_valid(q),
{
    rd_mul(Rate { mantissa: a as u128, scale: 0 }, rate)
}

/// The decimal of a whole `u64` amount.
pub open spec fn whole(n: u64) -> Rate {
    Rate { mantissa: n as u128, scale: 0 }
}

/// The whole part of a rate, rounded toward zero, as `to_u128` gives it.
pub open spec fn rate_floor(r: Rate) -> int {
    r.mantissa as int / pow10(r.scale as nat)
}

/// The whole part of a rate, rounded toward zero.
pub fn rate_to_u128(r: Rate) -> (out: u128)
    requires
        rate_valid(r),
    ensures
        out == rate_floor(r),
{
    proof {
        crate::decimal::lemma_pow10_monotone(0, r.scale as nat);
    }
    r.mantissa / pow10_u128(r.scale)
}

/// Whether a rate is above one.
pub fn rate_gt_one(r: Rate) -> (out: bool)
    requires
        rate_valid(r),
    ensures
        out == (r.mantissa > pow10(r.scale as nat)),
{
    r.mantissa > pow10_u128(r.scale)
}

/// The share of the total that one validator's part of `amount` is: `amount / count`,
/// or zero where there are no validators.
pub fn calc_threshold(amount: u128, val_count: usize) -> (r: u128)
    ensures
        val_count == 0 ==> r == 0,
        val_count != 0 ==> r == amount / (val_count as u128),
{
    if val_count == 0 {
        0
    } else {
        amount / (val_count as u128)
    }
}

/// The fee on `amount` at `fee` thousandths of a percent: `amount * fee / 100000`, the
/// product saturating at the largest 128-bit value.
pub fn calc_fee(amount: u128, fee: u64) -> (r: u128)
    ensures
        r == (if amount * fee > u128::MAX {
            u128::MAX as int
        } else {
            amount * fee
        }) / 100_000,
{
    let product = match amount.checked_mul(fee as u128) {
        Some(p) => p,
        None => u128::MAX,
    };
    product / 100_000
}

/// The exchange rate of the staking token: the staked amount over the token supply,
/// rounded to 12 places away from zero; one where either is zero. Both are taken as
/// 64-bit numbers.
pub fn _calc_exchange_rate(total_on_chain: u128, tokens: u128) -> (r: Rate)
    requires
        total_on_chain != 0 && tokens != 0 ==> tokens as u64 != 0,
    ensures
        rate_valid(r),
        total_on_chain == 0 || tokens == 0 ==> r == rd_round12_spec(whole(1)),
        total_on_chain != 0 && tokens != 0 ==> (rd_div_spec(
            whole(total_on_chain as u64),
            whole(tokens as u64),
        ) matches Some(q) && r == rd_round12_spec(q)),
{
    let side_balance = Rate { mantissa: (total_on_chain as u64) as u128, scale: 0 };
    let token_bal = Rate { mantissa: (tokens as u64) as u128, scale: 0 };
    let ratio = if total_on_chain == 0 || tokens == 0 {
        Rate { mantissa: 1, scale: 0 }
    } else {
        match rd_div(side_balance, token_bal) {
            Some(q) => q,
            None => Rate { mantissa: 1, scale: 0 },
        }
    };
    rd_round12(ratio)
}

/// What a withdrawal of `amount` staking tokens is worth at `rate`, rounded down; zero
/// where the product overflows. The amount is taken as a 64-bit number.
pub open spec fn calc_withdraw_spec(amount: u128, rate: Rate) -> int {
    match rd_mul_spec(whole(amount as u64), rate) {
        Some(x) => rate_floor(x),
        None => 0,
    }
}

/// What a withdrawal of `amount` staking tokens is worth at `rate`.
pub fn calc_withdraw(amount: u128, exchange_rate: Rate) -> (r: u128)
    requires
        rate_valid(exchange_rate),
    ensures
        r == calc_withdraw_spec(amount, exchange_rate),
{
    let normalized = Rate { mantissa: (amount as u64) as u128, scale: 0 };
    match rd_mul(normalized, exchange_rate) {
        Some(x) => rate_to_u128(x),
        None => 0,
    }
}

/// The staking tokens a deposit of `amount` mints at `rate`, rounded down. The amount is
/// taken as a 64-bit number.
pub fn calc_deposit(amount: u128, exchange_rate: Rate) -> (r: u128)
    requires
        rate_valid(exchange_rate),
        rd_div_spec(whole(amount as u64), exchange_rate) is Some,
    ensures
        r == rate_floor(rd_div_spec(whole(amount as u64), exchange_rate)->0),
{
    let normalized = Rate { mantissa: (amount as u64) as u128, scale: 0 };
    match rd_div(normalized, exchange_rate) {
        Some(x) => rate_to_u128(x),
        None => 0,
    }
}

/// The staking tokens a deposit of `amount` mints at `rate`, or `None` where the
/// quotient is out of range.
pub fn checked_calc_deposit(amount: u128, exchange_rate: Rate) -> (r: Option<u128>)
    requires
        rate_valid(exchange_rate),
    ensures
        match rd_div_spec(whole(amount as u64), exchange_rate) {
            Some(x) => r == Some(rate_floor(x) as u128),
            None => r is None,
        },
{
    let normalized = Rate { mantissa: (amount as u64) as u128, scale: 0 };
    match rd_div(normalized, exchange_rate) {
        Some(x) => {
            proof {
                crate::decimal::lemma_pow10_monotone(0, x.scale as nat);
            }
            Some(calc_deposit(amount, exchange_rate))
        },
        None => None,
    }
}

/// The value of the ASCII decimal digits `s`; `None` where one is not a digit.
pub open spec fn digits_value(s: Seq<char>) -> Option<int>
    decreases s.len(),
{
    if s.len() == 0 {
        Some(0)
    } else {
        match digits_value(s.drop_last()) {
            None => None,
            Some(v) => if '0' <= s.last() <= '9' {
                Some(v * 10 + (s.last() as int - 48))
            } else {
                None
            },
        }
    }
}

/// What `u128::from_str` accepts: an optional `+` and one or more decimal digits,
/// of a value that fits in 128 bits.
pub open spec fn parse_u128_spec(s: Seq<char>) -> Option<int> {
    let digits = if s.len() > 0 && s[0] == '+' {
        s.drop_first()
    } else {
        s
    };
    if digits.len() == 0 {
        None
    } else {
        match digits_value(digits) {
            Some(v) => if v <= u128::MAX {
                Some(v)
            } else {
                None
            },
            None => None,
        }
    }
}

/// A prefix of the digits of `t` reads to no more than `t` does, and where a prefix has
/// a character that is not a digit, so does `t`.
proof fn lemma_digits_prefix(t: Seq<char>, k: int)
    requires
        0 <= k <= t.len(),
    ensures
        digits_value(t.take(k)) is None ==> digits_value(t) is None,
        digits_value(t.take(k)) matches Some(a) ==> (digits_value(t) matches Some(b) ==> b >= a),
    decreases t.len(),
{
    if k == t.len() {
        assert(t.take(k) =~= t);
    } else {
        lemma_digits_prefix(t.drop_last(), k);
        assert(t.drop_last().take(k) =~= t.take(k));
        lemma_digits_nonnegative(t.drop_last());
    }
}

proof fn lemma_digits_nonnegative(t: Seq<char>)
    ensures
        digits_value(t) matches Some(v) ==> v >= 0,
    decreases t.len(),
{
    if t.len() > 0 {
        lemma_digits_nonnegative(t.drop_last());
    }
}

/// `s` read as a whole number, as `u128::from_str` reads it: an optional `+` and one or
/// more decimal digits, of a value that fits in 128 bits.
fn parse_u128(s: &str) -> (r: Option<u128>)
    ensures
        match parse_u128_spec(s@) {
            Some(v) => r == Some(v as u128),
            None => r is None,
        },
{
    let len = s.unicode_len();
    let mut i: usize = 0;
    if len > 0 && s.get_char(0) == '+' {
        i = 1;
    }
    let start = i;
    let ghost digits = s@.subrange(start as int, len as int);
    proof {
        if len > 0 && s@[0] == '+' {
            assert(digits =~= s@.drop_first());
        } else {
            assert(digits =~= s@);
        }
    }
    if start == len {
        return None;
    }
    let mut v: u128 = 0;
    proof {
        assert(s@.subrange(start as int, start as int) =~= Seq::<char>::empty());
    }
    while i < len
        invariant
            start <= i <= len,
            len == s@.len(),
            digits == s@.subrange(start as int, len as int),
            digits_value(s@.subrange(start as int, i as int)) == Some(v as int),
            parse_u128_spec(s@) == match digits_value(digits) {
                Some(w) => if w <= u128::MAX {
                    Some(w)
                } else {
                    None
                },
                None => None,
            },
        decreases len - i,
    {
        let c = s.get_char(i);
        let ghost next = s@.subrange(start as int, i + 1);
        proof {
            assert(next.drop_last() =~= s@.subrange(start as int, i as int));
            assert(next.last() == c);
            assert(digits.take(i + 1 - start) =~= next);
        }
        if !('0' <= c && c <= '9') {
            proof {
                assert(digits_value(next) is None);
                lemma_digits_prefix(digits, i + 1 - start);
            }
            return None;
        }
        let d: u128 = (c as u32 - 48) as u128;
        proof {
            assert(d == c as int - 48);
            assert(digits_value(next) == Some(v * 10 + d));
        }
        if v > (u128::MAX - d) / 10 {
            proof {
                assert(v * 10 + d > u128::MAX);
                lemma_digits_prefix(digits, i + 1 - start);
            }
            return None;
        }
        v = v * 10 + d;
        i = i + 1;
    }
    proof {
        assert(s@.subrange(start as int, len as int) =~= digits);
    }
    Some(v)
}

/// A whole amount written as text; `NotANumber` where the text is not one.
pub fn dec_to_uint(dec: String) -> (r: Result<u128, ContractError>)
    ensures
        match parse_u128_spec(dec@) {
            Some(v) => r == Ok::<u128, ContractError>(v as u128),
            None => r == Err::<u128, ContractError>(ContractError::NotANumber),
        },
{
    match parse_u128(dec.as_str()) {
        Some(v) => Ok(v),
        None => Err(ContractError::NotANumber),
    }
}

} // verus!
