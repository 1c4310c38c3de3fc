//! Real powers of decimals: an integer power times a truncated binomial series.
use vstd::prelude::*;

use crate::decimal::{
    decimal_sqrt, div_floor, frac, lemma_pow_spec_range, mul_floor, pow_loop, pow_panics, pow_spec, Decimal,
    MathError,
    DECIMAL_FRACTIONAL,
};

verus! {

/// Default precision of `calculate_pow`: 0.00000001.
pub const DEFAULT_PRECISION_ATOMICS: u128 = 10_000_000_000u128;

/// `(|a - b|, a < b)`.
pub open spec fn sub_sign_spec(a: int, b: int) -> (int, bool) {
    if a >= b {
        (a - b, false)
    } else {
        (b - a, true)
    }
}

/// Returns the absolute difference and whether `a - b` is negative.
fn sub_sign(a: Decimal, b: Decimal) -> (r: (Decimal, bool))
    ensures
        r.0.atomics == sub_sign_spec(a.atomics as int, b.atomics as int).0,
        r.1 == sub_sign_spec(a.atomics as int, b.atomics as int).1,
{
    if a.atomics >= b.atomics {
        (Decimal { atomics: a.atomics - b.atomics }, false)
    } else {
        (Decimal { atomics: b.atomics - a.atomics }, true)
    }
}

/// The next term of the binomial series, `term * c * x / k`, each product floored
/// to 18 decimals; `None` where a product leaves the range.
pub open spec fn next_term(term: int, c: int, x: int, k: int) -> Option<int> {
    let t1 = mul_floor(term, c);
    if t1 > u128::MAX {
        None
    } else {
        let t2 = mul_floor(t1, x);
        if t2 > u128::MAX {
            None
        } else {
            let t3 = div_floor(t2, k * frac());
            if t3 > u128::MAX {
                None
            } else {
                Some(t3)
            }
        }
    }
}

/// The partial sums of the series of `(1 + x)^a` (x negative where `xneg`), from the
/// `i`-th term on, stopping before the first term below `precision` or at a zero term;
/// `None` where an intermediate value leaves the range of a `Decimal`.
pub open spec fn series(
    x: int,
    xneg: bool,
    a: int,
    precision: int,
    term: int,
    sum: int,
    negative: bool,
    i: int,
    fuel: nat,
) -> Option<int>
    decreases fuel,
{
    if term < precision {
        Some(sum)
    } else if fuel == 0 {
        None
    } else {
        let cs = sub_sign_spec(a, (i - 1) * frac());
        match next_term(term, cs.0, x, i) {
            None => None,
            Some(t) => {
                if t == 0 {
                    Some(sum)
                } else {
                    let n1 = if xneg {
                        !negative
                    } else {
                        negative
                    };
                    let n2 = if cs.1 {
                        !n1
                    } else {
                        n1
                    };
                    let s = if n2 {
                        sum - t
                    } else {
                        sum + t
                    };
                    if s < 0 || s > u128::MAX {
                        None
                    } else {
                        series(x, xneg, a, precision, t, s, n2, i + 1, (fuel - 1) as nat)
                    }
                }
            }
        }
    }
}

/// What `pow_approx(base, exp, precision)` computes, on atomics.
pub open spec fn pow_approx_spec(base: int, exp: int, precision: int) -> Option<int> {
    if exp == frac() / 2 {
        Some(decimal_sqrt(base))
    } else {
        let xs = sub_sign_spec(base, frac());
        series(xs.0, xs.1, exp, precision, frac(), frac(), false, 1, frac() as nat)
    }
}

/// Whether raising `base` to `exp` by squaring, as `Decimal::checked_pow` does, would
/// end in a last product out of range after every step of its loop fitted.
fn pow_last_overflows(base: Decimal, exp: u32) -> (r: bool)
    ensures
        r == pow_panics(base.atomics as int, exp as nat),
{
    if exp == 0 {
        return false;
    }
    let mut x = base;
    let mut y = Decimal::one();
    let mut n = exp;
    proof {
        reveal(pow_loop);
    }
    while n > 1
        invariant
            n >= 1,
            pow_loop(base.atomics as int, frac(), exp as nat) == pow_loop(
                x.atomics as int,
                y.atomics as int,
                n as nat,
            ),
        decreases n,
    {
        proof {
            reveal(pow_loop);
        }
        if n % 2 == 0 {
            match x.checked_mul(x) {
                Some(x2) => {
                    x = x2;
                },
                None => {
                    return false;
                },
            }
            n = n / 2;
        } else {
            match x.checked_mul(y) {
                Some(y2) => {
                    y = y2;
                },
                None => {
                    return false;
                },
            }
            match x.checked_mul(x) {
                Some(x2) => {
                    x = x2;
                },
                None => {
                    return false;
                },
            }
            n = (n - 1) / 2;
        }
    }
    x.checked_mul(y).is_none()
}

/// What `calculate_pow(base, exp, precision)` computes, on atomics.
pub open spec fn calculate_pow_spec(base: int, exp: int, precision: int) -> Result<
    int,
    MathError,
> {
    if base == 0 && exp != 0 {
        Ok(base)
    } else if base > 2 * frac() {
        Err(MathError::BaseOutOfRange)
    } else {
        let integer = exp / frac();
        let fractional = exp % frac();
        // Where the last product of the squaring leaves the range, `pow_spec` is `None`.
        match pow_spec(base, (integer as u32) as nat) {
            None => Err(MathError::Overflow),
            Some(ip) => {
                if fractional == 0 {
                    Ok(ip as int)
                } else {
                    match pow_approx_spec(base, fractional, precision) {
                        None => Err(MathError::Overflow),
                        Some(fp) => {
                            let r = mul_floor(ip as int, fp);
                            if r > u128::MAX {
                                Err(MathError::Overflow)
                            } else {
                                Ok(r)
                            }
                        },
                    }
                }
            },
        }
    }
}

/// For a base of at most one, every term of the series of `(1 - x)^a`, `0 <= a < 1`,
/// after the first is taken away: the partial sums start at one and only fall.
proof fn lemma_series_at_most_one(
    x: int,
    xneg: bool,
    a: int,
    precision: int,
    term: int,
    sum: int,
    negative: bool,
    i: int,
    fuel: nat,
)
    requires
        xneg || x == 0,
        x >= 0,
        0 <= a < frac(),
        term >= 0,
        0 <= sum <= frac(),
        i >= 1,
        (i == 1 && !negative) || (i >= 2 && negative),
    ensures
        series(x, xneg, a, precision, term, sum, negative, i, fuel) matches Some(s) ==> 0 <= s
            <= frac(),
    decreases fuel,
{
    if term >= precision && fuel > 0 {
        let cs = sub_sign_spec(a, (i - 1) * frac());
        if i >= 2 {
            assert((i - 1) * frac() >= frac()) by (nonlinear_arith)
                requires
                    i >= 2,
            ;
        }
        assert(cs.0 >= 0);
        let t1 = mul_floor(term, cs.0);
        let t2 = mul_floor(t1, x);
        assert(t1 >= 0) by (nonlinear_arith)
            requires
                t1 == (term * cs.0) / frac(),
                term >= 0,
                cs.0 >= 0,
        ;
        assert(t2 >= 0) by (nonlinear_arith)
            requires
                t2 == (t1 * x) / frac(),
                t1 >= 0,
                x >= 0,
        ;
        if x == 0 {
            assert(t2 == 0) by (nonlinear_arith)
                requires
                    t2 == (t1 * x) / frac(),
                    x == 0,
            ;
        }
        let t3 = div_floor(t2, i * frac());
        assert(t3 >= 0) by (nonlinear_arith)
            requires
                t3 == (t2 * frac()) / (i * frac()),
                t2 >= 0,
                i >= 1,
        ;
        if x == 0 {
            assert(t3 == 0) by (nonlinear_arith)
                requires
                    t3 == (t2 * frac()) / (i * frac()),
                    t2 == 0,
                    i >= 1,
            ;
        }
        if let Some(t) = next_term(term, cs.0, x, i) {
            if t != 0 && sum - t >= 0 {
                lemma_series_at_most_one(x, xneg, a, precision, t, sum - t, true, i + 1, (fuel - 1) as nat);
            }
        }
    }
}

/// A power below the first of a decimal of at most one is at most one.
pub proof fn lemma_fractional_pow_at_most_one(base: int, exp: int, precision: int)
    requires
        0 <= base <= frac(),
        0 <= exp < frac(),
    ensures
        pow_approx_spec(base, exp, precision) matches Some(p) ==> 0 <= p <= frac(),
{
    if exp == frac() / 2 {
        crate::decimal::lemma_sqrt_at_most_one(base);
    } else {
        let xs = sub_sign_spec(base, frac());
        lemma_series_at_most_one(xs.0, xs.1, exp, precision, frac(), frac(), false, 1, frac() as nat);
    }
}

/// A power of at least the first of a decimal of at most one is at most that decimal:
/// raising a number below one to an exponent of one or more never makes it larger.
pub proof fn lemma_pow_above_one_at_most_base(base: int, exp: int, precision: int)
    requires
        0 <= base <= frac(),
        frac() <= exp,
        exp / frac() <= u32::MAX,
    ensures
        calculate_pow_spec(base, exp, precision) matches Ok(p) ==> 0 <= p <= base,
{
    let integer = exp / frac();
    let fractional = exp % frac();
    assert(integer >= 1);
    assert((integer as u32) as nat == integer);
    crate::decimal::lemma_pow_at_most_base(base, integer as nat);
    lemma_fractional_pow_at_most_one(base, fractional, precision);
    if let Some(ip) = pow_spec(base, integer as nat) {
        if let Some(fp) = pow_approx_spec(base, fractional, precision) {
            if fractional != 0 {
                assert(0 <= mul_floor(ip, fp) <= ip) by (nonlinear_arith)
                    requires
                        0 <= ip,
                        0 <= fp <= frac(),
                {
                    assert(ip * fp <= ip * frac());
                }
            }
        }
    }
}

proof fn lemma_term_decreases(term: int, a: int, x: int, i: int)
    requires
        term > 0,
        0 <= a < frac(),
        0 <= x <= frac(),
        i >= 1,
    ensures
        ({
            let cs = sub_sign_spec(a, (i - 1) * frac());
            let t1 = mul_floor(term, cs.0);
            let t2 = mul_floor(t1, x);
            &&& 0 <= t2 <= t1
            &&& 0 <= div_floor(t2, i * frac()) < term
            &&& t1 <= term * i
        }),
{
    let f = frac();
    let cs = sub_sign_spec(a, (i - 1) * f);
    let c = cs.0;
    let t1 = mul_floor(term, c);
    let t2 = mul_floor(t1, x);
    if i == 1 {
        assert(c == a);
        assert(t1 < term) by (nonlinear_arith)
            requires
                t1 == (term * c) / f,
                0 <= c < f,
                term > 0,
                f > 0,
        ;
        assert(t1 >= 0) by (nonlinear_arith)
            requires
                t1 == (term * c) / f,
                0 <= c,
                term > 0,
                f > 0,
        ;
    } else {
        assert((i - 1) * f >= f) by (nonlinear_arith)
            requires
                i >= 2,
                f > 0,
        ;
        assert(c == (i - 1) * f - a);
        assert(0 <= c <= (i - 1) * f);
        assert(0 <= t1 <= term * (i - 1)) by (nonlinear_arith)
            requires
                t1 == (term * c) / f,
                0 <= c <= (i - 1) * f,
                term > 0,
                f > 0,
        ;
    }
    assert(0 <= t1 <= term * i) by (nonlinear_arith)
        requires
            (i == 1 && 0 <= t1 < term) || (i >= 2 && 0 <= t1 <= term * (i - 1)),
            term > 0,
    ;
    assert(0 <= t2 <= t1) by (nonlinear_arith)
        requires
            t2 == (t1 * x) / f,
            0 <= x <= f,
            t1 >= 0,
            f > 0,
    ;
    let t3 = div_floor(t2, i * f);
    assert(t3 == t2 / i) by {
        vstd::arithmetic::mul::lemma_mul_is_commutative(f, i);
        vstd::arithmetic::mul::lemma_mul_is_commutative(t2, f);
        vstd::arithmetic::div_mod::lemma_div_denominator(t2 * f, f, i);
        vstd::arithmetic::div_mod::lemma_div_multiples_vanish(t2, f);
    }
    if i == 1 {
        assert(t2 / 1 == t2);
        assert(t3 < term);
    } else {
        vstd::arithmetic::div_mod::lemma_div_is_ordered(t2, term * (i - 1), i);
        assert(term * (i - 1) < term * i) by (nonlinear_arith)
            requires
                term > 0,
        ;
        vstd::arithmetic::mul::lemma_mul_is_commutative(term, i);
        vstd::arithmetic::div_mod::lemma_div_by_multiple_is_strongly_ordered(
            term * (i - 1),
            term * i,
            term,
            i,
        );
        vstd::arithmetic::div_mod::lemma_div_by_multiple(term, i);
        assert(t3 < term);
    }
    vstd::arithmetic::div_mod::lemma_div_pos_is_pos(t2, i);
}

/// Computes `base ^ exp` for `0 <= exp < 1` by summing the binomial series of
/// `(1 + (base - 1)) ^ exp` until a term falls below `precision`; an exponent of exactly
/// one half takes the square root instead.
pub fn pow_approx(base: Decimal, exp: Decimal, precision: Decimal) -> (r: Result<
    Decimal,
    MathError,
>)
    requires
        base.atomics <= 2 * frac(),
        exp.atomics < frac(),
    ensures
        pow_approx_spec(base.atomics as int, exp.atomics as int, precision.atomics as int) is None
            <==> r is Err,
        r matches Ok(d) ==> Some(d.atomics as int) == pow_approx_spec(
            base.atomics as int,
            exp.atomics as int,
            precision.atomics as int,
        ),
        r matches Err(e) ==> e == MathError::Overflow,
{
    if exp.atomics == DECIMAL_FRACTIONAL / 2 {
        return Ok(base.sqrt());
    }
    let (x, xneg) = sub_sign(base, Decimal::one());
    let mut term = Decimal::one();
    let mut sum = Decimal::one();
    let mut negative = false;
    let a = exp;
    let mut big_k = Decimal::zero();
    let mut i: u128 = 1;
    let ghost fuel: nat = frac() as nat;
    let ghost target = pow_approx_spec(base.atomics as int, exp.atomics as int, precision.atomics as int);
    loop
        invariant
            0 <= x.atomics <= frac(),
            a.atomics < frac(),
            sub_sign_spec(base.atomics as int, frac()) == (x.atomics as int, xneg),
            a == exp,
            1 <= i <= frac() + 1,
            term.atomics > 0,
            term.atomics + i <= frac() + 1,
            fuel == frac() + 1 - i,
            big_k.atomics == (i - 1) * frac(),
            exp.atomics != frac() / 2,
            target == pow_approx_spec(base.atomics as int, exp.atomics as int, precision.atomics as int),
            target == series(
                x.atomics as int,
                xneg,
                a.atomics as int,
                precision.atomics as int,
                term.atomics as int,
                sum.atomics as int,
                negative,
                i as int,
                fuel,
            ),
        decreases frac() + 1 - i,
    {
        if term.atomics < precision.atomics {
            return Ok(sum);
        }
        let (c, cneg) = sub_sign(a, big_k);
        proof {
            lemma_term_decreases(term.atomics as int, a.atomics as int, x.atomics as int, i as int);
            assert(i * frac() <= (frac() + 1) * frac()) by (nonlinear_arith)
                requires
                    i <= frac() + 1,
            ;
        }
        big_k = Decimal::from_ratio(i, 1);
        proof {
            assert(div_floor(i as int, 1) == i * frac()) by (nonlinear_arith) {}
        }
        let t1 = match term.checked_mul(c) {
            Some(v) => v,
            None => {
                return Err(MathError::Overflow);
            },
        };
        let t2 = match t1.checked_mul(x) {
            Some(v) => v,
            None => {
                return Err(MathError::Overflow);
            },
        };
        let t3 = match t2.checked_div(big_k) {
            Some(v) => v,
            None => {
                return Err(MathError::Overflow);
            },
        };
        if t3.is_zero() {
            return Ok(sum);
        }
        if xneg {
            negative = !negative;
        }
        if cneg {
            negative = !negative;
        }
        if negative {
            sum = match sum.checked_sub(t3) {
                Some(v) => v,
                None => {
                    return Err(MathError::Overflow);
                },
            };
        } else {
            sum = match sum.checked_add(t3) {
                Some(v) => v,
                None => {
                    return Err(MathError::Overflow);
                },
            };
        }
        term = t3;
        i = i + 1;
        proof {
            fuel = (fuel - 1) as nat;
        }
    }
}

/// Computes `base ^ exp` as `base ^ floor(exp)` times `base ^ frac(exp)`, the latter
/// approximated to `precision` (default 0.00000001). The base must not exceed two.
pub fn calculate_pow(base: Decimal, exp: Decimal, precision: Option<Decimal>) -> (r: Result<
    Decimal,
    MathError,
>)
    ensures
        ({
            let p = match precision {
                Some(p) => p.atomics as int,
                None => DEFAULT_PRECISION_ATOMICS as int,
            };
            match calculate_pow_spec(base.atomics as int, exp.atomics as int, p) {
                Ok(v) => r matches Ok(d) && d.atomics == v,
                Err(e) => r == Err::<Decimal, MathError>(e),
            }
        }),
{
    let precision = match precision {
        Some(p) => p,
        None => Decimal::raw(DEFAULT_PRECISION_ATOMICS),
    };
    if base.is_zero() && !exp.is_zero() {
        return Ok(base);
    }
    if base.atomics > 2 * DECIMAL_FRACTIONAL {
        return Err(MathError::BaseOutOfRange);
    }
    let integer = exp.atomics / DECIMAL_FRACTIONAL;
    let fractional = Decimal::raw(exp.atomics % DECIMAL_FRACTIONAL);
    proof {
        lemma_pow_spec_range(base.atomics as int, (integer as u32) as nat);
    }
    if pow_last_overflows(base, integer as u32) {
        return Err(MathError::Overflow);
    }
    let integer_pow = match base.checked_pow(integer as u32) {
        Some(v) => v,
        None => {
            return Err(MathError::Overflow);
        },
    };
    if fractional.is_zero() {
        return Ok(integer_pow);
    }
    let fractional_pow = match pow_approx(base, fractional, precision) {
        Ok(v) => v,
        Err(e) => {
            return Err(e);
        },
    };
    match integer_pow.checked_mul(fractional_pow) {
        Some(v) => Ok(v),
        None => Err(MathError::Overflow),
    }
}

} // verus!
