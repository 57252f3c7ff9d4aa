//! What the service answers with.
use vstd::prelude::*;

verus! {

/// The net APY of a vault.
#[derive(Debug)]
pub struct ApyResponseDto {
    /// The vault's address, with its checksum.
    pub vault: String,
    /// The vault's net APY, as a percentage.
    pub apy: String,
}

} // verus!
