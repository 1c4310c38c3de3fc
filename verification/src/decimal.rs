//! Fixed-point numbers with 18 fractional digits, held as their atomic units.
//!
//! `Decimal` stands for `cosmwasm_std::Decimal` and `Decimal256` for the part of
//! `cosmwasm_std::Decimal256` that the swap logic uses (values below 2^128).
//! The arithmetic that needs 256-bit intermediates is done by cosmwasm_std itself
//! through the trusted functions of this module.
use vstd::prelude::*;

verus! {

/// Why a fixed-point computation failed.
#[derive(Clone, Copy, Debug, PartialEq, Eq, Structural)]
pub enum MathError {
    /// A divisor was zero.
    DivideByZero,
    /// A result left the range of its type.
    Overflow,
    /// The base of a fractional power was above two.
    BaseOutOfRange,
}

/// 10^18, the atomic units of one whole `Decimal`.
pub const DECIMAL_FRACTIONAL: u128 = 1_000_000_000_000_000_000u128;

/// Number of fractional digits of a `Decimal`.
pub const DECIMAL_PLACES: u32 = 18;

pub open spec fn frac() -> int {
    1_000_000_000_000_000_000int
}

pub open spec fn pow10(n: nat) -> int
    decreases n,
{
    if n == 0 {
        1
    } else {
        10 * pow10((n - 1) as nat)
    }
}

/// Value `atomics / 10^18`.
#[derive(Clone, Copy, Debug, PartialEq, Eq, Structural)]
pub struct Decimal {
    pub atomics: u128,
}

/// Value `atomics / 10^18` of a 256-bit decimal that fits in 128 bits.
#[derive(Clone, Copy, Debug, PartialEq, Eq, Structural)]
pub struct Decimal256 {
    pub atomics: u128,
}

/// `floor(a * b / 10^18)`: the atomics of the product of two decimals.
pub open spec fn mul_floor(a: int, b: int) -> int {
    (a * b) / frac()
}

/// `floor(a * 10^18 / b)`: the atomics of the quotient of two decimals.
pub open spec fn div_floor(a: int, b: int) -> int {
    (a * frac()) / b
}

/// The atomics of `atomics / 10^decimal_places` as a `Decimal`: scaled up to 18
/// places (`None` where that leaves 128 bits) or down, rounding toward zero.
pub open spec fn from_atomics_spec(atomics: int, decimal_places: int) -> Option<int> {
    if decimal_places <= 18 {
        let a = atomics * pow10((18 - decimal_places) as nat);
        if a > u128::MAX {
            None
        } else {
            Some(a)
        }
    } else {
        Some(atomics / pow10((decimal_places - 18) as nat))
    }
}

/// Powers of ten up to 10^38 fit in 128 bits.
#[verifier::spinoff_prover]
#[verifier::rlimit(30)]
pub proof fn lemma_pow10_bound(n: nat)
    requires
        n <= 37,
    ensures
        pow10(n) * 10 <= u128::MAX,
        pow10(n) >= 1,
{
    lemma_pow10_monotone(n, 37);
    reveal_with_fuel(pow10, 40);
    assert(pow10(37) == 10_000_000_000_000_000_000_000_000_000_000_000_000int);
}

/// Powers of ten grow with the exponent.
pub proof fn lemma_pow10_monotone(n: nat, m: nat)
    requires
        n <= m,
    ensures
        1 <= pow10(n) <= pow10(m),
    decreases m,
{
    if m == 0 {
    } else {
        if n == m {
            lemma_pow10_monotone(0, (m - 1) as nat);
        } else {
            lemma_pow10_monotone(n, (m - 1) as nat);
        }
    }
}


/// The atomics that `from_atomics` gives are never negative.
pub proof fn lemma_from_atomics_nonneg(atomics: int, decimal_places: int)
    requires
        atomics >= 0,
    ensures
        from_atomics_spec(atomics, decimal_places) matches Some(a) ==> a >= 0,
{
    if decimal_places <= 18 {
        let p = pow10((18 - decimal_places) as nat);
        lemma_pow10_monotone(0, (18 - decimal_places) as nat);
        assert(atomics * p >= 0) by (nonlinear_arith)
            requires
                atomics >= 0,
                p >= 1,
        ;
    } else {
        lemma_pow10_monotone(0, (decimal_places - 18) as nat);
    }
}

/// Exponentiation by squaring on atomics, from `x` with accumulator `y` and `n` left:
/// while `n > 1`, an even `n` squares `x` and halves `n`; an odd `n` multiplies `y` by
/// `x`, squares `x` and halves `n - 1`. Each product is rounded down; `None` where one
/// leaves 128 bits. Gives the final `x` and `y`.
#[verifier::opaque]
pub open spec fn pow_loop(x: int, y: int, n: nat) -> Option<(int, int)>
    decreases n,
{
    if n <= 1 {
        Some((x, y))
    } else if n % 2 == 0 {
        let x2 = mul_floor(x, x);
        if x2 > u128::MAX {
            None
        } else {
            pow_loop(x2, y, n / 2)
        }
    } else {
        let y2 = mul_floor(x, y);
        let x2 = mul_floor(x, x);
        if y2 > u128::MAX || x2 > u128::MAX {
            None
        } else {
            pow_loop(x2, y2, ((n - 1) / 2) as nat)
        }
    }
}

/// The factors of the squaring stay nonnegative.
proof fn lemma_pow_loop_nonneg(x: int, y: int, n: nat)
    requires
        x >= 0,
        y >= 0,
    ensures
        pow_loop(x, y, n) matches Some((a, b)) ==> a >= 0 && b >= 0,
    decreases n,
{
    reveal(pow_loop);
    assert(mul_floor(x, x) >= 0 && mul_floor(x, y) >= 0) by (nonlinear_arith)
        requires
            x >= 0,
            y >= 0,
    {
        assert(x * x >= 0 && x * y >= 0);
    }
    if n > 1 {
        if n % 2 == 0 {
            lemma_pow_loop_nonneg(mul_floor(x, x), y, n / 2);
        } else {
            lemma_pow_loop_nonneg(mul_floor(x, x), mul_floor(x, y), ((n - 1) / 2) as nat);
        }
    }
}

/// A power of a nonnegative base is a nonnegative value of 128 bits.
pub proof fn lemma_pow_spec_range(base: int, exp: nat)
    requires
        base >= 0,
    ensures
        pow_spec(base, exp) matches Some(a) ==> 0 <= a <= u128::MAX,
{
    lemma_pow_loop_nonneg(base, frac(), exp);
    if let Some((x, y)) = pow_loop(base, frac(), exp) {
        assert(mul_floor(x, y) >= 0) by (nonlinear_arith)
            requires
                x >= 0,
                y >= 0,
        {
            assert(x * y >= 0);
        }
    }
}

/// Squaring a decimal of at most one, and multiplying by one, never grows it.
proof fn lemma_pow_loop_at_most(x: int, y: int, n: nat)
    requires
        0 <= x <= frac(),
        0 <= y <= frac(),
    ensures
        pow_loop(x, y, n) matches Some((a, c)) ==> 0 <= a <= x && 0 <= c <= frac(),
    decreases n,
{
    reveal(pow_loop);
    assert(0 <= mul_floor(x, x) <= x && 0 <= mul_floor(x, y) <= frac()) by (nonlinear_arith)
        requires
            0 <= x <= frac(),
            0 <= y <= frac(),
    {
        assert(x * x <= x * frac());
        assert(x * y <= frac() * frac());
    }
    if n > 1 {
        if n % 2 == 0 {
            lemma_pow_loop_at_most(mul_floor(x, x), y, n / 2);
        } else {
            lemma_pow_loop_at_most(mul_floor(x, x), mul_floor(x, y), ((n - 1) / 2) as nat);
        }
    }
}

/// A whole power (at least the first) of a decimal of at most one is at most that decimal.
pub proof fn lemma_pow_at_most_base(base: int, exp: nat)
    requires
        0 <= base <= frac(),
        exp >= 1,
    ensures
        pow_spec(base, exp) matches Some(p) ==> 0 <= p <= base,
{
    lemma_pow_loop_at_most(base, frac(), exp);
    if let Some((x, y)) = pow_loop(base, frac(), exp) {
        assert(0 <= mul_floor(x, y) <= x) by (nonlinear_arith)
            requires
                0 <= x,
                0 <= y <= frac(),
        {
            assert(x * y <= x * frac());
        }
    }
}

proof fn lemma_pow_loop_zero(y: int, n: nat)
    requires
        0 <= y <= frac(),
    ensures
        pow_loop(0, y, n) matches Some((a, c)) && a == 0 && 0 <= c <= frac(),
    decreases n,
{
    reveal(pow_loop);
    assert(mul_floor(0, 0) == 0 && mul_floor(0, y) == 0);
    if n > 1 {
        if n % 2 == 0 {
            lemma_pow_loop_zero(y, n / 2);
        } else {
            lemma_pow_loop_zero(0, ((n - 1) / 2) as nat);
        }
    }
}

/// Every whole power, from the first, of zero is zero.
pub proof fn lemma_pow_of_zero(exp: nat)
    requires
        exp >= 1,
    ensures
        pow_spec(0, exp) == Some(0int),
{
    lemma_pow_loop_zero(frac(), exp);
    if let Some((a, c)) = pow_loop(0, frac(), exp) {
        assert(mul_floor(a, c) == 0);
    }
}

/// The first power of a decimal is itself.
pub proof fn lemma_pow_one(base: int)
    requires
        0 <= base <= u128::MAX,
    ensures
        pow_spec(base, 1) == Some(base),
{
    reveal(pow_loop);
    assert(mul_floor(base, frac()) == base);
}

proof fn lemma_isqrt_exists(n: int)
    requires
        n >= 0,
    ensures
        exists|r: int| 0 <= r && #[trigger] (r * r) <= n && n < (r + 1) * (r + 1),
    decreases n,
{
    if n == 0 {
        let r: int = 0;
        assert(0 <= r && r * r <= n && n < (r + 1) * (r + 1)) by (nonlinear_arith)
            requires
                r == 0,
                n == 0,
        ;
    } else {
        lemma_isqrt_exists(n - 1);
        let r = choose|r: int| 0 <= r && #[trigger] (r * r) <= n - 1 && n - 1 < (r + 1) * (r + 1);
        if (r + 1) * (r + 1) <= n {
            assert(n < (r + 2) * (r + 2)) by (nonlinear_arith)
                requires
                    n - 1 < (r + 1) * (r + 1),
                    r >= 0,
            ;
            assert(0 <= r + 1 && (r + 1) * (r + 1) <= n && n < (r + 1 + 1) * (r + 1 + 1));
        } else {
            assert(0 <= r && r * r <= n && n < (r + 1) * (r + 1));
        }
    }
}

/// The square root of a decimal of at most one is at most one.
pub proof fn lemma_sqrt_at_most_one(atomics: int)
    requires
        0 <= atomics <= frac(),
    ensures
        0 <= decimal_sqrt(atomics) <= frac(),
{
    reveal_with_fuel(pow10, 20);
    assert(pow10(18) == frac());
    assert(pow10(0) == 1);
    assert(atomics * frac() <= frac() * frac()) by (nonlinear_arith)
        requires
            0 <= atomics <= frac(),
    ;
    assert(sqrt_precision(atomics, 9) == 9);
    let n = atomics * frac();
    lemma_isqrt_exists(n);
    let r = isqrt_spec(n);
    assert(0 <= r && r * r <= n);
    assert(r <= frac()) by (nonlinear_arith)
        requires
            0 <= r,
            r * r <= n,
            n <= frac() * frac(),
    ;
    assert(decimal_sqrt(atomics) == r * 1);
}

/// The last product of the squaring leaves 128 bits although every step before it fitted.
pub open spec fn pow_panics(base: int, exp: nat) -> bool {
    exp != 0 && match pow_loop(base, frac(), exp) {
        Some((x, y)) => mul_floor(x, y) > u128::MAX,
        None => false,
    }
}

/// `base ^ exp` on atomics by squaring: one for a zero exponent, else the product of the
/// final `x` and `y` of `pow_loop`; `None` where a step leaves 128 bits.
pub open spec fn pow_spec(base: int, exp: nat) -> Option<int> {
    if exp == 0 {
        Some(frac())
    } else {
        match pow_loop(base, frac(), exp) {
            Some((x, y)) => if mul_floor(x, y) > u128::MAX {
                None
            } else {
                Some(mul_floor(x, y))
            },
            None => None,
        }
    }
}

/// The highest precision, from `i` down to zero, at which `a * 100^precision` fits in
/// 128 bits.
pub open spec fn sqrt_precision(a: int, i: nat) -> nat
    decreases i,
{
    if i == 0 || a * pow10(2 * i) <= u128::MAX {
        i
    } else {
        sqrt_precision(a, (i - 1) as nat)
    }
}

/// The integer square root of `n`: the `r` with `r * r <= n < (r + 1) * (r + 1)`.
pub open spec fn isqrt_spec(n: int) -> int {
    choose|r: int| 0 <= r && #[trigger] (r * r) <= n && n < (r + 1) * (r + 1)
}

/// What `cosmwasm_std::Decimal::sqrt` returns, on atomics: at the highest precision `p`
/// (at most 9) at which the atomics times `100^p` fit, the integer square root of that
/// product times `10^(9 - p)`.
pub open spec fn decimal_sqrt(atomics: int) -> int {
    let p = sqrt_precision(atomics, 9);
    isqrt_spec(atomics * pow10(2 * p)) * pow10((9 - p) as nat)
}

impl Decimal {
    pub fn zero() -> (r: Decimal)
        ensures
            r.atomics == 0,
    {
        Decimal { atomics: 0 }
    }

    pub fn one() -> (r: Decimal)
        ensures
            r.atomics == DECIMAL_FRACTIONAL,
    {
        Decimal { atomics: DECIMAL_FRACTIONAL }
    }

    pub fn raw(atomics: u128) -> (r: Decimal)
        ensures
            r.atomics == atomics,
    {
        Decimal { atomics }
    }

    pub fn is_zero(&self) -> (r: bool)
        ensures
            r == (self.atomics == 0),
    {
        self.atomics == 0
    }

    pub fn checked_add(self, other: Decimal) -> (r: Option<Decimal>)
        ensures
            self.atomics + other.atomics <= u128::MAX ==> r == Some(
                Decimal { atomics: (self.atomics + other.atomics) as u128 },
            ),
            self.atomics + other.atomics > u128::MAX ==> r is None,
    {
        match self.atomics.checked_add(other.atomics) {
            Some(a) => Some(Decimal { atomics: a }),
            None => None,
        }
    }

    pub fn checked_sub(self, other: Decimal) -> (r: Option<Decimal>)
        ensures
            other.atomics <= self.atomics ==> r == Some(
                Decimal { atomics: (self.atomics - other.atomics) as u128 },
            ),
            other.atomics > self.atomics ==> r is None,
    {
        match self.atomics.checked_sub(other.atomics) {
            Some(a) => Some(Decimal { atomics: a }),
            None => None,
        }
    }

    /// Whole part, rounded down.
    pub fn to_uint_floor(self) -> (r: u128)
        ensures
            r == self.atomics / DECIMAL_FRACTIONAL,
    {
        self.atomics / DECIMAL_FRACTIONAL
    }

    /// Whole part, rounded up.
    pub fn to_uint_ceil(self) -> (r: u128)
        ensures
            self.atomics == 0 ==> r == 0,
            self.atomics > 0 ==> r == 1 + (self.atomics - 1) / frac(),
            r * frac() >= self.atomics,
            r * frac() < self.atomics + frac(),
    {
        if self.atomics == 0 {
            0
        } else {
            let q = (self.atomics - 1) / DECIMAL_FRACTIONAL;
            proof {
                let x = self.atomics - 1;
                assert(x == q * frac() + x % frac()) by (nonlinear_arith)
                    requires
                        q == x / frac(),
                ;
            }
            1 + q
        }
    }

    /// `self * other`, or `None` where the product leaves the range.
    /// Calls `cosmwasm_std::Decimal::checked_mul`.
    #[verifier::external_body]
    pub(crate) fn checked_mul(self, other: Decimal) -> (r: Option<Decimal>)
        ensures
            mul_floor(self.atomics as int, other.atomics as int) <= u128::MAX ==> r == Some(
                Decimal { atomics: mul_floor(self.atomics as int, other.atomics as int) as u128 },
            ),
            mul_floor(self.atomics as int, other.atomics as int) > u128::MAX ==> r is None,
    {
        match cosmwasm_std::Decimal::raw(self.atomics).checked_mul(
            cosmwasm_std::Decimal::raw(other.atomics),
        ) {
            Ok(d) => Some(Decimal { atomics: d.atomics().u128() }),
            Err(_) => None,
        }
    }

    /// `self / other`, or `None` where `other` is zero or the quotient leaves the range.
    /// Calls `cosmwasm_std::Decimal::checked_div`.
    #[verifier::external_body]
    pub(crate) fn checked_div(self, other: Decimal) -> (r: Option<Decimal>)
        ensures
            other.atomics == 0 ==> r is None,
            other.atomics != 0 && div_floor(self.atomics as int, other.atomics as int)
                <= u128::MAX ==> r == Some(
                Decimal { atomics: div_floor(self.atomics as int, other.atomics as int) as u128 },
            ),
            other.atomics != 0 && div_floor(self.atomics as int, other.atomics as int)
                > u128::MAX ==> r is None,
    {
        match cosmwasm_std::Decimal::raw(self.atomics).checked_div(
            cosmwasm_std::Decimal::raw(other.atomics),
        ) {
            Ok(d) => Some(Decimal { atomics: d.atomics().u128() }),
            Err(_) => None,
        }
    }

    /// `numerator / denominator`. Calls `cosmwasm_std::Decimal::from_ratio`, which
    /// panics where the denominator is zero or the ratio leaves the range.
    #[verifier::external_body]
    pub(crate) fn from_ratio(numerator: u128, denominator: u128) -> (r: Decimal)
        requires
            denominator != 0,
            div_floor(numerator as int, denominator as int) <= u128::MAX,
        ensures
            r.atomics == div_floor(numerator as int, denominator as int),
    {
        Decimal { atomics: cosmwasm_std::Decimal::from_ratio(numerator, denominator).atomics().u128() }
    }

    /// `atomics / 10^decimal_places`, or `None` where it leaves the range.
    /// Calls `cosmwasm_std::Decimal::from_atomics`.
    #[verifier::external_body]
    pub(crate) fn from_atomics(atomics: u128, decimal_places: u32) -> (r: Option<Decimal>)
        ensures
            match from_atomics_spec(atomics as int, decimal_places as int) {
                Some(a) => r == Some(Decimal { atomics: a as u128 }),
                None => r is None,
            },
    {
        match cosmwasm_std::Decimal::from_atomics(atomics, decimal_places) {
            Ok(d) => Some(Decimal { atomics: d.atomics().u128() }),
            Err(_) => None,
        }
    }

    /// The whole number `n`, parsed from its decimal digits, or `None` where `n * 10^18`
    /// leaves the range. Calls `cosmwasm_std::Decimal::from_str` on `n.to_string()`.
    #[verifier::external_body]
    pub(crate) fn from_whole(n: u128) -> (r: Option<Decimal>)
        ensures
            n * frac() <= u128::MAX ==> r == Some(Decimal { atomics: (n * frac()) as u128 }),
            n * frac() > u128::MAX ==> r is None,
    {
        match <cosmwasm_std::Decimal as std::str::FromStr>::from_str(&n.to_string()) {
            Ok(d) => Some(Decimal { atomics: d.atomics().u128() }),
            Err(_) => None,
        }
    }

    /// `self ^ exp` by repeated squaring, or `None` where a squaring step leaves the
    /// range. Calls `cosmwasm_std::Decimal::checked_pow`; its source checks each step of
    /// the loop but multiplies the final two factors with `Mul`, which panics out of range,
    /// so that case is left out.
    #[verifier::external_body]
    pub(crate) fn checked_pow(self, exp: u32) -> (r: Option<Decimal>)
        requires
            !pow_panics(self.atomics as int, exp as nat),
        ensures
            r == (match pow_spec(self.atomics as int, exp as nat) {
                Some(a) => Some(Decimal { atomics: a as u128 }),
                None => None::<Decimal>,
            }),
    {
        match cosmwasm_std::Decimal::raw(self.atomics).checked_pow(exp) {
            Ok(d) => Some(Decimal { atomics: d.atomics().u128() }),
            Err(_) => None,
        }
    }

    /// The approximate square root. Calls `cosmwasm_std::Decimal::sqrt`, which does not
    /// panic: its source tries the precisions 9 down to 0, takes the first at which the
    /// atomics times `100^precision` fit, and scales the integer square root (by Newton's
    /// iteration) of that product back by `10^(9 - precision)`.
    #[verifier::external_body]
    pub(crate) fn sqrt(self) -> (r: Decimal)
        ensures
            r.atomics == decimal_sqrt(self.atomics as int),
    {
        Decimal { atomics: cosmwasm_std::Decimal::raw(self.atomics).sqrt().atomics().u128() }
    }
}

/// `floor(amount * dec)`: an integer amount times a decimal. Calls
/// `Mul<Decimal> for cosmwasm_std::Uint128`, which panics where the product leaves
/// the range.
#[verifier::external_body]
pub(crate) fn uint_mul_dec(amount: u128, dec: Decimal) -> (r: u128)
    requires
        mul_floor(amount as int, dec.atomics as int) <= u128::MAX,
    ensures
        r == mul_floor(amount as int, dec.atomics as int),
{
    (cosmwasm_std::Uint128::new(amount) * cosmwasm_std::Decimal::raw(dec.atomics)).u128()
}

impl Decimal256 {
    pub fn one() -> (r: Decimal256)
        ensures
            r.atomics == DECIMAL_FRACTIONAL,
    {
        Decimal256 { atomics: DECIMAL_FRACTIONAL }
    }

    /// `Decimal256::one() / self`. Calls `Div for cosmwasm_std::Decimal256`, which panics
    /// on a zero divisor.
    #[verifier::external_body]
    pub(crate) fn inverse(self) -> (r: Decimal256)
        requires
            self.atomics != 0,
        ensures
            r.atomics == div_floor(frac(), self.atomics as int),
    {
        let q = cosmwasm_std::Decimal256::one() / cosmwasm_std::Decimal256::new(
            cosmwasm_std::Uint256::from(self.atomics),
        );
        Decimal256 { atomics: cosmwasm_std::Uint128::try_from(q.atomics()).unwrap().u128() }
    }

    /// The same value held as a `Decimal256`. Calls `cosmwasm_std::Decimal256::from_atomics`
    /// with the 18 decimal places of a `Decimal`, which keeps the atomics.
    #[verifier::external_body]
    pub(crate) fn from_decimal_atomics(atomics: u128) -> (r: Decimal256)
        ensures
            r.atomics == atomics,
    {
        let d = cosmwasm_std::Decimal256::from_atomics(atomics, DECIMAL_PLACES).unwrap();
        Decimal256 { atomics: cosmwasm_std::Uint128::try_from(d.atomics()).unwrap().u128() }
    }
}

/// `floor(amount * dec)` computed on 256 bits and brought back to 128 bits, or `None`
/// where it does not fit. Calls `Mul<Decimal256> for cosmwasm_std::Uint256` and
/// `TryFrom<Uint256> for Uint128`.
#[verifier::external_body]
pub(crate) fn uint256_mul_dec256(amount: u128, dec: Decimal256) -> (r: Option<u128>)
    ensures
        mul_floor(amount as int, dec.atomics as int) <= u128::MAX ==> r == Some(
            mul_floor(amount as int, dec.atomics as int) as u128,
        ),
        mul_floor(amount as int, dec.atomics as int) > u128::MAX ==> r is None,
{
    let p = cosmwasm_std::Uint256::from(amount) * cosmwasm_std::Decimal256::new(
        cosmwasm_std::Uint256::from(dec.atomics),
    );
    match cosmwasm_std::Uint128::try_from(p) {
        Ok(v) => Some(v.u128()),
        Err(_) => None,
    }
}

} // verus!
