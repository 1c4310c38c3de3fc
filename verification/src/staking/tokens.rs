//! The staking token's instantiation parameters and their checks.
use vstd::prelude::*;
use vstd::string::StringSliceAdditionalSpecFns;

use crate::staking::error::ContractError;

verus! {

/// An initial balance of the token.
#[derive(Clone, Debug, PartialEq, Eq)]
pub struct InitialBalance {
    pub address: String,
    pub amount: u128,
}

/// What the staking token is instantiated with.
#[derive(Clone, Debug, PartialEq, Eq)]
pub struct TokenInitMsg {
    pub name: String,
    pub symbol: String,
    pub decimals: u8,
    pub initial_balances: Vec<InitialBalance>,
    /// The minter, where there is one.
    pub minter: Option<String>,
    /// The most the minter may mint, where it is capped.
    pub mint_cap: Option<u128>,
}

/// A token name is valid when it is 3 to 50 bytes long.
pub fn is_valid_name(name: &str) -> (r: bool)
    ensures
        r == (3 <= name.spec_bytes().len() <= 50),
{
    let bytes = name.as_bytes();
    if bytes.len() < 3 || bytes.len() > 50 {
        return false;
    }
    true
}

/// Bytes allowed in a token symbol: `-` and ASCII letters.
pub open spec fn is_symbol_byte(b: u8) -> bool {
    b == 45 || (65 <= b <= 90) || (97 <= b <= 122)
}

/// A token symbol is valid when it is 3 to 12 bytes long and every byte is `-` or an
/// ASCII letter.
pub fn is_valid_symbol(symbol: &str) -> (r: bool)
    ensures
        r == (3 <= symbol.spec_bytes().len() <= 12 && forall|i: int|
            0 <= i < symbol.spec_bytes().len() ==> is_symbol_byte(#[trigger] symbol.spec_bytes()[i])),
{
    let bytes = symbol.as_bytes();
    if bytes.len() < 3 || bytes.len() > 12 {
        return false;
    }
    let mut i: usize = 0;
    while i < bytes.len()
        invariant
            i <= bytes@.len(),
            bytes@ == symbol.spec_bytes(),
            forall|j: int| 0 <= j < i ==> is_symbol_byte(#[trigger] bytes@[j]),
        decreases bytes.len() - i,
    {
        let byte = bytes[i];
        if (byte != 45) && (byte < 65 || byte > 90) && (byte < 97 || byte > 122) {
            return false;
        }
        i = i + 1;
    }
    true
}

impl TokenInitMsg {
    /// The most that may be minted: the minter's cap, where there is a capped minter.
    pub fn get_cap(&self) -> (r: Option<u128>)
        ensures
            r == (match self.minter {
                Some(_) => self.mint_cap,
                None => None::<u128>,
            }),
    {
        match self.minter {
            Some(_) => self.mint_cap,
            None => None,
        }
    }

    /// The token needs a name of 3 to 50 bytes, a symbol of 3 to 12 letters or `-`, and
    /// at most 18 decimals; the first of these that fails is the error.
    pub fn validate(&self) -> (r: Result<(), ContractError>)
        ensures
            !(3 <= vstd::utf8::encode_utf8(self.name@).len() <= 50) ==> r == Err::<(), ContractError>(
                ContractError::InvalidTokenName,
            ),
            (3 <= vstd::utf8::encode_utf8(self.name@).len() <= 50) && !(3 <= vstd::utf8::encode_utf8(
                self.symbol@,
            ).len() <= 12 && forall|i: int|
                0 <= i < vstd::utf8::encode_utf8(self.symbol@).len() ==> is_symbol_byte(
                    #[trigger] vstd::utf8::encode_utf8(self.symbol@)[i],
                )) ==> r == Err::<(), ContractError>(ContractError::InvalidTokenSymbol),
            r is Ok <==> ({
                &&& 3 <= vstd::utf8::encode_utf8(self.name@).len() <= 50
                &&& 3 <= vstd::utf8::encode_utf8(self.symbol@).len() <= 12
                &&& forall|i: int|
                    0 <= i < vstd::utf8::encode_utf8(self.symbol@).len() ==> is_symbol_byte(
                        #[trigger] vstd::utf8::encode_utf8(self.symbol@)[i],
                    )
                &&& self.decimals <= 18
            }),
            r is Err && (3 <= vstd::utf8::encode_utf8(self.name@).len() <= 50) && (3
                <= vstd::utf8::encode_utf8(self.symbol@).len() <= 12 && forall|i: int|
                0 <= i < vstd::utf8::encode_utf8(self.symbol@).len() ==> is_symbol_byte(
                    #[trigger] vstd::utf8::encode_utf8(self.symbol@)[i],
                )) ==> r == Err::<(), ContractError>(ContractError::InvalidTokenDecimals),
    {
        if !is_valid_name(self.name.as_str()) {
            return Err(ContractError::InvalidTokenName);
        }
        if !is_valid_symbol(self.symbol.as_str()) {
            return Err(ContractError::InvalidTokenSymbol);
        }
        if self.decimals > 18 {
            return Err(ContractError::InvalidTokenDecimals);
        }
        Ok(())
    }
}

} // verus!
