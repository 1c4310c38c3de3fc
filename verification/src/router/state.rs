//! The router's stored constants.
use vstd::prelude::*;

verus! {

#[derive(Clone, Debug, PartialEq, Eq)]
pub struct Constants {
    pub count: i32,
    pub owner: String,
}

} // verus!
