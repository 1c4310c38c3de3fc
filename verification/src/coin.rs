//! A token amount with its denomination, as `cosmwasm_std::Coin` holds it.
use vstd::prelude::*;

use crate::decimal::pow10;

verus! {

/// An amount of one denomination.
#[derive(Clone, Debug, PartialEq, Eq)]
pub struct Coin {
    pub denom: String,
    pub amount: u128,
}

impl Coin {
    pub fn new(denom: String, amount: u128) -> (r: Coin)
        ensures
            r.denom == denom,
            r.amount == amount,
    {
        Coin { denom, amount }
    }

    /// A field-by-field copy.
    pub fn duplicate(&self) -> (r: Coin)
        ensures
            r == *self,
    {
        Coin { denom: self.denom.clone(), amount: self.amount }
    }
}

/// Ten to the power `n`, as `10u128.pow(n)` computes it.
pub fn pow10_u128(n: u32) -> (r: u128)
    requires
        n <= 38,
    ensures
        r == pow10(n as nat),
{
    let mut r: u128 = 1;
    let mut i: u32 = 0;
    while i < n
        invariant
            i <= n <= 38,
            r == pow10(i as nat),
        decreases n - i,
    {
        proof {
            crate::decimal::lemma_pow10_bound(i as nat);
        }
        r = r * 10;
        i = i + 1;
    }
    r
}

} // verus!
