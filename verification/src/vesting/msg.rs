//! Messages of vesting.
use vstd::prelude::*;

verus! {

#[derive(Clone, Debug, PartialEq, Eq)]
pub struct MigrateMsg {}

} // verus!
