//! The service that computes APYs of vaults.
use vstd::prelude::*;

use crate::address::Address;
use crate::query::{opening, VaultQuery};
use crate::u256::U256;

verus! {

/// MorphoService wraps a provider of chain data and opens the queries that
/// compute APYs on MetaMorpho vaults. The type parameter `P` allows the caller
/// to supply any provider that can answer them.
#[derive(Clone)]
pub struct MorphoService<P> {
    provider: P,
}

impl<P> MorphoService<P> {
    /// The provider that the service was constructed from.
    pub closed spec fn spec_provider(self) -> P {
        self.provider
    }

    /// Construct a new service from an existing provider.
    pub fn new(provider: P) -> (r: Self)
        ensures
            r.spec_provider() == provider,
    {
        MorphoService { provider }
    }

    /// The provider that is to answer the queries.
    pub fn provider(&self) -> (r: &P)
        ensures
            *r == self.spec_provider(),
    {
        &self.provider
    }

    /// Compute the vault's net APY (after fees) as a percentage string: the
    /// query after a deposit of nothing.
    pub fn compute_vault_net_apy_percent(&self, vault_addr: Address) -> (r: VaultQuery)
        ensures
            r@ == opening(vault_addr@, 0),
    {
        self.compute_vault_net_apy_after_deposit(vault_addr, U256::from_u128(0))
    }

    /// Compute the vault's net APY after depositing a fixed amount of assets
    /// into the vault. The deposit is expressed in the vault's asset units. The
    /// query that is returned asks for the chain data, and ends with the APY as
    /// a percentage string.
    pub fn compute_vault_net_apy_after_deposit(
        &self,
        vault_addr: Address,
        deposit_assets: U256,
    ) -> (r: VaultQuery)
        ensures
            r@ == opening(vault_addr@, deposit_assets@),
    {
        VaultQuery::new(vault_addr, deposit_assets)
    }
}

} // verus!
