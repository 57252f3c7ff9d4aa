//! What is read from the chain about the markets of a vault.
use vstd::prelude::*;

use crate::address::Address;
use crate::u256::U256;

verus! {

/// The id of a Morpho market.
#[derive(Clone, Copy, Debug, PartialEq, Eq)]
pub struct MarketId {
    pub bytes: [u8; 32],
}

impl View for MarketId {
    type V = Seq<u8>;

    open spec fn view(&self) -> Seq<u8> {
        self.bytes@
    }
}

/// The parameters that define a Morpho market.
#[derive(Clone, Copy, Debug, PartialEq, Eq)]
pub struct MarketParams {
    pub loan_token: Address,
    pub collateral_token: Address,
    pub oracle: Address,
    /// The interest rate model, or the zero address where the market has none.
    pub irm: Address,
    pub lltv: U256,
}

/// The totals of a Morpho market.
#[derive(Clone, Copy, Debug, PartialEq, Eq)]
pub struct Market {
    pub total_supply_assets: u128,
    pub total_supply_shares: u128,
    pub total_borrow_assets: u128,
    pub total_borrow_shares: u128,
    pub last_update: u128,
    /// The market's fee, as a WAD.
    pub fee: u128,
}

/// The position of one account in a Morpho market.
#[derive(Clone, Copy, Debug, PartialEq, Eq)]
pub struct Position {
    pub supply_shares: U256,
    pub borrow_shares: u128,
    pub collateral: u128,
}

/// Everything that the APY of a vault takes from one of its markets.
#[derive(Clone, Copy, Debug, PartialEq, Eq)]
pub struct MarketReading {
    pub market: Market,
    /// The supply shares that the vault holds in the market.
    pub vault_shares: U256,
    /// The borrow rate per second, as a WAD, where the market has an interest
    /// rate model.
    pub borrow_rate: Option<U256>,
}

} // verus!
