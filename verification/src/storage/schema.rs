use vstd::prelude::*;

verus! {

/// Initial schema version.
pub const SCHEMA_VERSION: u32 = 1;

} // verus!
