//! The arithmetic of annual yields.
//!
//! Rates, fees, weights and yields are WADs: integers that count units of
//! `1e-18`. Every product and sum saturates at the largest value of 256 bits,
//! and every quotient is rounded down.
use vstd::prelude::*;

use crate::market::MarketReading;
use crate::u256::{cap, monus, quotient, U256};

verus! {

/// Number of seconds in one year. Used to annualize rates per second.
pub const SECONDS_PER_YEAR: u64 = 31_536_000;

/// One, as a WAD.
pub const WAD: u128 = 1_000_000_000_000_000_000;

/// One, as a WAD, in mathematical integers.
#[verifier::inline]
pub open spec fn wad() -> nat {
    1_000_000_000_000_000_000nat
}

/// `e^x - 1` to the third order, for `x` the rate over the whole time: the sum
/// `x + x^2/2 + x^3/6`, cut off where one more than it exceeds 256 bits.
pub open spec fn taylor_apy(rate_per_sec: nat, seconds: nat) -> nat {
    let x = cap(rate_per_sec * seconds);
    let x2 = cap(x * x) / wad();
    let x3 = cap(x2 * x) / wad();
    (cap(wad() + x + x2 / 2 + x3 / 6) - wad()) as nat
}

/// The part of the supply that is lent out, and zero where nothing is supplied.
pub open spec fn utilization(borrow_assets: nat, supply_assets: nat) -> nat {
    quotient(cap(borrow_assets * wad()), supply_assets)
}

/// What is left of an amount once a fee is taken off it.
pub open spec fn after_fee(amount: nat, fee: nat) -> nat {
    cap(amount * monus(wad(), fee)) / wad()
}

/// What suppliers earn: the yield of the part that is lent out, less the fee.
pub open spec fn supply_apy(borrow_apy: nat, utilization: nat, fee: nat) -> nat {
    after_fee(cap(borrow_apy * utilization) / wad(), fee)
}

/// The assets that a number of supply shares stands for.
pub open spec fn shares_to_assets(shares: nat, total_assets: nat, total_shares: nat) -> nat {
    cap(shares * total_assets) / (if total_shares <= 1 {
        1
    } else {
        total_shares
    })
}

/// The yearly borrow rate of a market; zero without an interest rate model.
pub open spec fn borrow_apy_of(m: MarketReading) -> nat {
    match m.borrow_rate {
        Some(rate) => taylor_apy(rate@, SECONDS_PER_YEAR as nat),
        None => 0,
    }
}

/// The supply APY of a market were its supply to grow by `added`.
pub open spec fn supply_apy_of(m: MarketReading, added: nat) -> nat {
    supply_apy(
        borrow_apy_of(m),
        utilization(
            m.market.total_borrow_assets as nat,
            cap(m.market.total_supply_assets as nat + added),
        ),
        m.market.fee as nat,
    )
}

/// The assets of the vault in a market.
pub open spec fn exposure_of(m: MarketReading) -> nat {
    shares_to_assets(
        m.vault_shares@,
        m.market.total_supply_assets as nat,
        m.market.total_supply_shares as nat,
    )
}

/// The sum of the vault's exposures.
pub open spec fn sum_exposure(ms: Seq<MarketReading>) -> nat
    decreases ms.len(),
{
    if ms.len() == 0 {
        0
    } else {
        sum_exposure(ms.drop_last()) + exposure_of(ms.last())
    }
}

/// The sum of what the vault's exposures yield in a year, in units of a WAD.
pub open spec fn sum_yield(ms: Seq<MarketReading>) -> nat
    decreases ms.len(),
{
    if ms.len() == 0 {
        0
    } else {
        sum_yield(ms.drop_last()) + exposure_of(ms.last()) * supply_apy_of(ms.last(), 0)
    }
}

/// The part of a deposit that goes to a market which holds `exposure` of the
/// vault's `total` assets: the deposit times the market's weight.
pub open spec fn allocation(exposure: nat, total: nat, deposit: nat) -> nat {
    cap(deposit * quotient(cap(exposure * wad()), total)) / wad()
}

/// The part of a deposit that goes to a market.
pub open spec fn allocation_of(m: MarketReading, total: nat, deposit: nat) -> nat {
    allocation(exposure_of(m), total, deposit)
}

/// What the vault's exposure to a market yields after a deposit: the exposure
/// and the market's supply have both grown by the market's part of the deposit.
pub open spec fn yield_after_of(m: MarketReading, total: nat, deposit: nat) -> nat {
    let added = allocation_of(m, total, deposit);
    cap(exposure_of(m) + added) * supply_apy_of(m, added)
}

/// The sum of what the vault's exposures yield after a deposit.
pub open spec fn sum_yield_after(ms: Seq<MarketReading>, total: nat, deposit: nat) -> nat
    decreases ms.len(),
{
    if ms.len() == 0 {
        0
    } else {
        sum_yield_after(ms.drop_last(), total, deposit) + yield_after_of(ms.last(), total, deposit)
    }
}

/// The APY of the vault's assets before its own fee: their yield, divided by
/// their sum. Zero for a vault without assets.
pub open spec fn weighted_apy(ms: Seq<MarketReading>, deposit: nat) -> nat {
    let total = cap(sum_exposure(ms));
    if total == 0 {
        0
    } else if deposit == 0 {
        cap(sum_yield(ms)) / total
    } else {
        cap(sum_yield_after(ms, total, deposit)) / cap(total + deposit)
    }
}

/// The vault's net APY: the APY of its assets, less the vault's fee.
pub open spec fn net_apy(ms: Seq<MarketReading>, fee: nat, deposit: nat) -> nat {
    after_fee(weighted_apy(ms, deposit), fee)
}

/// Exponentiate a per-second rate (in WAD) over a fixed number of seconds to
/// compute an annualized rate. This function approximates `exp(rate * t) - 1`
/// using a third-order Taylor expansion. It is suitable for small rates and
/// avoids floating point arithmetic.
pub fn exp_wad(rate_per_sec_wad: U256, seconds: u128) -> (r: U256)
    ensures
        r@ == taylor_apy(rate_per_sec_wad@, seconds as nat),
{
    let one = U256::from_u128(WAD);
    let x = rate_per_sec_wad.saturating_mul(U256::from_u128(seconds));
    let x2 = x.saturating_mul(x).div_or_zero(one);
    let x3 = x2.saturating_mul(x).div_or_zero(one);
    let e_x = one.saturating_add(x).saturating_add(x2.div_or_zero(U256::from_u128(2))).saturating_add(
        x3.div_or_zero(U256::from_u128(6)),
    );
    e_x.saturating_sub(one)
}

/// Borrowed assets as a part of supplied assets.
pub fn utilization_wad(borrow_assets: U256, supply_assets: U256) -> (r: U256)
    ensures
        r@ == utilization(borrow_assets@, supply_assets@),
{
    if supply_assets.is_zero() {
        U256::from_u128(0)
    } else {
        borrow_assets.saturating_mul(U256::from_u128(WAD)).div_or_zero(supply_assets)
    }
}

/// What is left of an amount once a fee is taken off it.
pub fn after_fee_wad(amount: U256, fee: U256) -> (r: U256)
    ensures
        r@ == after_fee(amount@, fee@),
{
    let one = U256::from_u128(WAD);
    amount.saturating_mul(one.saturating_sub(fee)).div_or_zero(one)
}

/// The supply APY of a market: borrow APY * utilization * (1 - fee).
pub fn supply_apy_wad(borrow_apy: U256, utilization: U256, fee: U256) -> (r: U256)
    ensures
        r@ == supply_apy(borrow_apy@, utilization@, fee@),
{
    let gross = borrow_apy.saturating_mul(utilization).div_or_zero(U256::from_u128(WAD));
    after_fee_wad(gross, fee)
}

/// The yearly borrow rate of a market; zero without an interest rate model.
pub fn market_borrow_apy(m: &MarketReading) -> (r: U256)
    ensures
        r@ == borrow_apy_of(*m),
{
    match m.borrow_rate {
        Some(rate) => exp_wad(rate, SECONDS_PER_YEAR as u128),
        None => U256::from_u128(0),
    }
}

/// The supply APY of a market were its supply to grow by `added`.
pub fn market_supply_apy(m: &MarketReading, added: U256) -> (r: U256)
    ensures
        r@ == supply_apy_of(*m, added@),
{
    let supply = U256::from_u128(m.market.total_supply_assets).saturating_add(added);
    let borrow = U256::from_u128(m.market.total_borrow_assets);
    supply_apy_wad(
        market_borrow_apy(m),
        utilization_wad(borrow, supply),
        U256::from_u128(m.market.fee),
    )
}

/// The assets of the vault in a market: its supply shares, converted by the
/// market's ratio of supplied assets to supply shares.
pub fn market_exposure(m: &MarketReading) -> (r: U256)
    ensures
        r@ == exposure_of(*m),
{
    let shares = U256::from_u128(m.market.total_supply_shares).max(U256::from_u128(1));
    m.vault_shares.saturating_mul(U256::from_u128(m.market.total_supply_assets)).div_or_zero(shares)
}

/// The part of a deposit that goes to a market which holds `exposure` of the
/// vault's `total` assets.
pub fn deposit_allocation(exposure: U256, total: U256, deposit: U256) -> (r: U256)
    ensures
        r@ == allocation(exposure@, total@, deposit@),
{
    let one = U256::from_u128(WAD);
    let weight = exposure.saturating_mul(one).div_or_zero(total);
    deposit.saturating_mul(weight).div_or_zero(one)
}

/// The APY of the vault's assets before its own fee, were `deposit` added to
/// them.
pub fn weighted_apy_wad(markets: &Vec<MarketReading>, deposit: U256) -> (r: U256)
    ensures
        r@ == weighted_apy(markets@, deposit@),
{
    let mut total = U256::from_u128(0);
    let mut weighted_sum = U256::from_u128(0);
    let mut exposures: Vec<U256> = Vec::with_capacity(markets.len());
    for i in 0..markets.len()
        invariant
            exposures.len() == i,
            forall|j: int| 0 <= j < i ==> (#[trigger] exposures[j])@ == exposure_of(markets[j]),
            total@ == cap(sum_exposure(markets@.take(i as int))),
            weighted_sum@ == cap(sum_yield(markets@.take(i as int))),
    {
        let m = &markets[i];
        let exposure = market_exposure(m);
        let apy = market_supply_apy(m, U256::from_u128(0));
        proof {
            assert(markets@.take(i + 1).drop_last() =~= markets@.take(i as int));
            assert(markets@.take(i + 1).last() == *m);
        }
        weighted_sum = weighted_sum.saturating_add(exposure.saturating_mul(apy));
        total = total.saturating_add(exposure);
        exposures.push(exposure);
    }
    proof {
        assert(markets@.take(markets.len() as int) =~= markets@);
    }
    if total.is_zero() {
        return U256::from_u128(0);
    }
    if deposit.is_zero() {
        return weighted_sum.div_or_zero(total);
    }
    let mut new_weighted_sum = U256::from_u128(0);
    for i in 0..markets.len()
        invariant
            exposures.len() == markets.len(),
            forall|j: int|
                0 <= j < markets.len() ==> (#[trigger] exposures[j])@ == exposure_of(markets[j]),
            new_weighted_sum@ == cap(
                sum_yield_after(markets@.take(i as int), total@, deposit@),
            ),
    {
        let m = &markets[i];
        let exposure = exposures[i];
        let added = deposit_allocation(exposure, total, deposit);
        let apy = market_supply_apy(m, added);
        proof {
            assert(markets@.take(i + 1).drop_last() =~= markets@.take(i as int));
            assert(markets@.take(i + 1).last() == *m);
        }
        new_weighted_sum = new_weighted_sum.saturating_add(
            exposure.saturating_add(added).saturating_mul(apy),
        );
    }
    proof {
        assert(markets@.take(markets.len() as int) =~= markets@);
    }
    new_weighted_sum.div_or_zero(total.saturating_add(deposit))
}

/// The vault's net APY, were `deposit` added to its assets.
///
/// The deposit is distributed across the markets in proportion to the vault's
/// current exposure. It raises the supply of each market at once, which lowers
/// utilization and therefore the supply APY; the borrow rate is taken to stay.
/// The weighted APY is then reduced by the vault performance fee.
pub fn net_apy_wad(markets: &Vec<MarketReading>, fee: U256, deposit: U256) -> (r: U256)
    ensures
        r@ == net_apy(markets@, fee@, deposit@),
{
    after_fee_wad(weighted_apy_wad(markets, deposit), fee)
}

} // verus!
