//! Messages of the volume oracle.
use vstd::prelude::*;

verus! {

#[derive(Clone, Debug, PartialEq, Eq)]
pub struct MigrateMsg {}

} // verus!
