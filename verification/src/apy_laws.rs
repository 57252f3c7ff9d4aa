//! What holds of every vault, market and deposit.
use vstd::prelude::*;

use crate::apy::{
    after_fee, allocation, allocation_of, borrow_apy_of, exposure_of, net_apy, sum_exposure,
    sum_yield, sum_yield_after, supply_apy, supply_apy_of, taylor_apy, utilization, wad,
    weighted_apy, yield_after_of,
};
use crate::market::MarketReading;
use crate::u256::{cap, monus, u256_max};

verus! {

/// Division by a positive number keeps the order.
proof fn lemma_div_ordered(a: nat, b: nat, d: nat)
    requires
        a <= b,
        d > 0,
    ensures
        a / d <= b / d,
{
    vstd::arithmetic::div_mod::lemma_div_is_ordered(a as int, b as int, d as int);
}

/// A larger divisor gives no larger a quotient.
proof fn lemma_div_by_larger(a: nat, d: nat, e: nat)
    requires
        0 < d <= e,
    ensures
        a / e <= a / d,
{
    vstd::arithmetic::div_mod::lemma_div_is_ordered_by_denominator(a as int, d as int, e as int);
}

/// A quotient is at most `q` where the dividend is at most `q` divisors.
proof fn lemma_div_at_most(a: nat, d: nat, q: nat)
    requires
        d > 0,
        a <= q * d,
    ensures
        a / d <= q,
{
    vstd::arithmetic::div_mod::lemma_div_is_ordered(a as int, (q * d) as int, d as int);
    vstd::arithmetic::div_mod::lemma_div_by_multiple(q as int, d as int);
}

/// The quotient times the divisor is at most the dividend.
proof fn lemma_div_times(a: nat, d: nat)
    requires
        d > 0,
    ensures
        (a / d) * d <= a,
{
    vstd::arithmetic::div_mod::lemma_fundamental_div_mod(a as int, d as int);
    vstd::arithmetic::mul::lemma_mul_is_commutative((a / d) as int, d as int);
}

/// Products keep the order.
proof fn lemma_mul_ordered(a: nat, b: nat, c: nat, d: nat)
    requires
        a <= b,
        c <= d,
    ensures
        a * c <= b * d,
{
    assert(a * c <= b * d) by (nonlinear_arith)
        requires
            a <= b,
            c <= d,
    ;
}

/// A larger amount leaves no less once the fee is taken off.
proof fn lemma_after_fee_ordered(a: nat, b: nat, fee: nat)
    requires
        a <= b,
    ensures
        after_fee(a, fee) <= after_fee(b, fee),
{
    let kept = monus(wad(), fee);
    lemma_mul_ordered(a, b, kept, kept);
    lemma_div_ordered(cap(a * kept), cap(b * kept), wad());
}

/// A fee never adds to an amount.
pub proof fn law_fee_never_adds(amount: nat, fee: nat)
    ensures
        after_fee(amount, fee) <= amount,
{
    let kept = monus(wad(), fee);
    lemma_mul_ordered(amount, amount, kept, wad());
    lemma_div_at_most(cap(amount * kept), wad(), amount);
}

/// A fee of the whole leaves nothing.
pub proof fn law_whole_fee_leaves_nothing(amount: nat, fee: nat)
    requires
        fee >= wad(),
    ensures
        after_fee(amount, fee) == 0,
{
    assert(amount * monus(wad(), fee) == 0) by (nonlinear_arith)
        requires
            monus(wad(), fee) == 0,
    ;
}

/// A higher fee never leaves more.
pub proof fn law_higher_fee_never_leaves_more(amount: nat, fee: nat, higher: nat)
    requires
        fee <= higher,
    ensures
        after_fee(amount, higher) <= after_fee(amount, fee),
{
    let kept = monus(wad(), fee);
    let less = monus(wad(), higher);
    lemma_mul_ordered(amount, amount, less, kept);
    lemma_div_ordered(cap(amount * less), cap(amount * kept), wad());
}

/// A market in use at a lower rate pays suppliers no more.
pub proof fn law_supply_apy_follows_utilization(borrow_apy: nat, low: nat, high: nat, fee: nat)
    requires
        low <= high,
    ensures
        supply_apy(borrow_apy, low, fee) <= supply_apy(borrow_apy, high, fee),
{
    lemma_mul_ordered(borrow_apy, borrow_apy, low, high);
    lemma_div_ordered(cap(borrow_apy * low), cap(borrow_apy * high), wad());
    lemma_after_fee_ordered(
        cap(borrow_apy * low) / wad(),
        cap(borrow_apy * high) / wad(),
        fee,
    );
}

/// New supply never raises the utilization of a market that has some supply.
pub proof fn law_supply_lowers_utilization(borrow: nat, supply: nat, added: nat)
    requires
        0 < supply <= u256_max(),
    ensures
        utilization(borrow, cap(supply + added)) <= utilization(borrow, supply),
{
    lemma_div_by_larger(cap(borrow * wad()), supply, cap(supply + added));
}

/// A vault has no exposure to a market without supply.
proof fn lemma_no_supply_no_exposure(m: MarketReading)
    requires
        m.market.total_supply_assets == 0,
    ensures
        exposure_of(m) == 0,
{
    assert(m.vault_shares@ * 0 == 0);
    let shares = if m.market.total_supply_shares <= 1 {
        1nat
    } else {
        m.market.total_supply_shares as nat
    };
    assert(0nat / shares == 0) by (nonlinear_arith)
        requires
            shares > 0,
    ;
}

/// No part of a deposit goes to a market without exposure.
pub proof fn law_no_exposure_no_allocation(total: nat, deposit: nat)
    ensures
        allocation(0, total, deposit) == 0,
{
    assert(0 * wad() == 0);
    if total != 0 {
        assert(0nat / total == 0) by (nonlinear_arith)
            requires
                total > 0,
        ;
    }
    assert(deposit * 0 == 0);
}

/// A deposit into the vault never raises the supply APY of a market.
pub proof fn law_deposit_never_raises_supply_apy(m: MarketReading, total: nat, deposit: nat)
    ensures
        supply_apy_of(m, allocation_of(m, total, deposit)) <= supply_apy_of(m, 0),
{
    let added = allocation_of(m, total, deposit);
    let supply = m.market.total_supply_assets as nat;
    let borrow = m.market.total_borrow_assets as nat;
    if supply == 0 {
        lemma_no_supply_no_exposure(m);
        law_no_exposure_no_allocation(total, deposit);
    } else {
        law_supply_lowers_utilization(borrow, supply, added);
        law_supply_apy_follows_utilization(
            borrow_apy_of(m),
            utilization(borrow, cap(supply + added)),
            utilization(borrow, cap(supply + 0)),
            m.market.fee as nat,
        );
    }
}

/// A market gets no more of a deposit than its share of the vault's assets.
pub proof fn law_allocation_in_proportion(exposure: nat, total: nat, deposit: nat)
    requires
        total > 0,
    ensures
        total * allocation(exposure, total, deposit) <= deposit * exposure,
{
    let weight = cap(exposure * wad()) / total;
    let added = cap(deposit * weight) / wad();
    lemma_div_times(cap(exposure * wad()), total);
    lemma_div_times(cap(deposit * weight), wad());
    assert(total * added <= deposit * exposure) by (nonlinear_arith)
        requires
            weight * total <= exposure * wad(),
            added * wad() <= deposit * weight,
            wad() == 1_000_000_000_000_000_000,
    {
        assert(added * wad() * total <= deposit * weight * total);
        assert(deposit * (weight * total) <= deposit * (exposure * wad()));
        assert(deposit * weight * total == deposit * (weight * total));
        assert(deposit * (exposure * wad()) == (deposit * exposure) * wad());
        assert(added * wad() * total == (total * added) * wad());
    }
}

/// A market gets its share of a deposit but for rounding, as long as no product
/// exceeds 256 bits.
pub proof fn law_allocation_near_share(exposure: nat, total: nat, deposit: nat)
    requires
        0 < total,
        exposure <= total,
        exposure * wad() <= u256_max(),
        deposit * wad() <= u256_max(),
    ensures
        deposit * exposure * wad() < total * wad() * (allocation(exposure, total, deposit) + 1)
            + deposit * total,
{
    let one = wad();
    let weight = exposure * one / total;
    lemma_mul_ordered(exposure, total, one, one);
    assert(exposure * one <= one * total) by (nonlinear_arith)
        requires
            exposure <= total,
    ;
    lemma_div_at_most(exposure * one, total, one);
    lemma_mul_ordered(deposit, deposit, weight, one);
    let added = deposit * weight / one;
    assert(exposure * one < (weight + 1) * total) by {
        vstd::arithmetic::div_mod::lemma_fundamental_div_mod((exposure * one) as int, total as int);
        vstd::arithmetic::mul::lemma_mul_is_distributive_add_other_way(
            total as int,
            weight as int,
            1,
        );
        vstd::arithmetic::mul::lemma_mul_is_commutative(weight as int, total as int);
    }
    assert(deposit * weight < (added + 1) * one) by {
        vstd::arithmetic::div_mod::lemma_fundamental_div_mod((deposit * weight) as int, one as int);
    }
    assert(deposit * exposure * one < total * one * (added + 1) + deposit * total)
        by (nonlinear_arith)
        requires
            exposure * one < (weight + 1) * total,
            deposit * weight < (added + 1) * one,
            total > 0,
    {
        assert(deposit * (exposure * one) <= deposit * ((weight + 1) * total));
        assert(deposit * ((weight + 1) * total) == (deposit * weight) * total + deposit * total);
        assert((deposit * weight) * total < ((added + 1) * one) * total);
        assert(((added + 1) * one) * total == total * one * (added + 1));
        assert(deposit * (exposure * one) == deposit * exposure * one);
    }
}

/// The sum of the parts of a deposit that go to the markets.
pub open spec fn sum_allocation(ms: Seq<MarketReading>, total: nat, deposit: nat) -> nat
    decreases ms.len(),
{
    if ms.len() == 0 {
        0
    } else {
        sum_allocation(ms.drop_last(), total, deposit) + allocation_of(ms.last(), total, deposit)
    }
}

proof fn lemma_sum_allocation(ms: Seq<MarketReading>, total: nat, deposit: nat)
    requires
        total > 0,
    ensures
        total * sum_allocation(ms, total, deposit) <= deposit * sum_exposure(ms),
    decreases ms.len(),
{
    if ms.len() == 0 {
        assert(total * 0 == 0 && deposit * 0 == 0);
    } else {
        let rest = ms.drop_last();
        lemma_sum_allocation(rest, total, deposit);
        law_allocation_in_proportion(exposure_of(ms.last()), total, deposit);
        vstd::arithmetic::mul::lemma_mul_is_distributive_add(
            total as int,
            sum_allocation(rest, total, deposit) as int,
            allocation_of(ms.last(), total, deposit) as int,
        );
        vstd::arithmetic::mul::lemma_mul_is_distributive_add(
            deposit as int,
            sum_exposure(rest) as int,
            exposure_of(ms.last()) as int,
        );
    }
}

/// The markets together get no more than the deposit, in a vault whose assets
/// can be counted in 256 bits.
pub proof fn law_allocations_within_deposit(ms: Seq<MarketReading>, deposit: nat)
    requires
        sum_exposure(ms) <= u256_max(),
    ensures
        sum_allocation(ms, cap(sum_exposure(ms)), deposit) <= deposit,
{
    let total = sum_exposure(ms);
    if total == 0 {
        lemma_no_total_no_allocation(ms, deposit);
    } else {
        lemma_sum_allocation(ms, total, deposit);
        let sum = sum_allocation(ms, total, deposit);
        assert(sum <= deposit) by (nonlinear_arith)
            requires
                total * sum <= deposit * total,
                total > 0,
        ;
    }
}

proof fn lemma_no_total_no_allocation(ms: Seq<MarketReading>, deposit: nat)
    ensures
        sum_allocation(ms, 0, deposit) == 0,
    decreases ms.len(),
{
    if ms.len() != 0 {
        lemma_no_total_no_allocation(ms.drop_last(), deposit);
        assert(deposit * 0 == 0);
    }
}

/// After a deposit the yield grows by no more than the assets do.
proof fn lemma_sum_yield_after(ms: Seq<MarketReading>, total: nat, deposit: nat)
    requires
        total > 0,
    ensures
        total * sum_yield_after(ms, total, deposit) <= (total + deposit) * sum_yield(ms),
    decreases ms.len(),
{
    if ms.len() == 0 {
        assert(total * 0 == 0 && (total + deposit) * 0 == 0);
    } else {
        let rest = ms.drop_last();
        let m = ms.last();
        let exposure = exposure_of(m);
        let added = allocation_of(m, total, deposit);
        let apy = supply_apy_of(m, 0);
        let apy_after = supply_apy_of(m, added);
        lemma_sum_yield_after(rest, total, deposit);
        law_allocation_in_proportion(exposure, total, deposit);
        law_deposit_never_raises_supply_apy(m, total, deposit);
        lemma_mul_ordered(cap(exposure + added), exposure + added, apy_after, apy);
        let yielded = yield_after_of(m, total, deposit);
        assert(total * yielded <= (total + deposit) * (exposure * apy)) by (nonlinear_arith)
            requires
                yielded <= (exposure + added) * apy,
                total * added <= deposit * exposure,
        {
            assert(total * yielded <= total * ((exposure + added) * apy));
            assert(total * ((exposure + added) * apy) == (total * exposure + total * added) * apy);
            assert((total * exposure + total * added) * apy <= (total * exposure + deposit
                * exposure) * apy);
            assert((total * exposure + deposit * exposure) * apy == (total + deposit) * (exposure
                * apy));
        }
        vstd::arithmetic::mul::lemma_mul_is_distributive_add(
            total as int,
            sum_yield_after(rest, total, deposit) as int,
            yielded as int,
        );
        vstd::arithmetic::mul::lemma_mul_is_distributive_add(
            (total + deposit) as int,
            sum_yield(rest) as int,
            (exposure * apy) as int,
        );
    }
}

/// A deposit never raises the APY of the vault's assets, as long as these and
/// the deposit together can be counted in 256 bits.
pub proof fn law_deposit_never_raises_weighted_apy(ms: Seq<MarketReading>, deposit: nat)
    requires
        sum_exposure(ms) + deposit <= u256_max(),
    ensures
        weighted_apy(ms, deposit) <= weighted_apy(ms, 0),
{
    let total = sum_exposure(ms);
    if total != 0 && deposit != 0 {
        let before = sum_yield(ms);
        let after = sum_yield_after(ms, total, deposit);
        let grown = total + deposit;
        if before > u256_max() {
            lemma_div_ordered(cap(after), cap(before), grown);
            lemma_div_by_larger(cap(before), total, grown);
        } else {
            lemma_sum_yield_after(ms, total, deposit);
            let q = cap(after) / grown;
            lemma_div_times(cap(after), grown);
            assert(q * total <= before) by (nonlinear_arith)
                requires
                    q * grown <= after,
                    total * after <= grown * before,
                    grown > 0,
            {
                assert(total * (q * grown) <= total * after);
                assert(total * (q * grown) == grown * (q * total));
                assert(grown * (q * total) <= grown * before);
            }
            lemma_div_ordered(q * total, before, total);
            vstd::arithmetic::div_mod::lemma_div_by_multiple(q as int, total as int);
        }
    }
}

/// A deposit never raises the vault's net APY, as long as the vault's assets
/// and the deposit together can be counted in 256 bits.
pub proof fn law_deposit_never_raises_net_apy(ms: Seq<MarketReading>, fee: nat, deposit: nat)
    requires
        sum_exposure(ms) + deposit <= u256_max(),
    ensures
        net_apy(ms, fee, deposit) <= net_apy(ms, fee, 0),
{
    law_deposit_never_raises_weighted_apy(ms, deposit);
    lemma_after_fee_ordered(weighted_apy(ms, deposit), weighted_apy(ms, 0), fee);
}

proof fn lemma_yield_at_most(ms: Seq<MarketReading>, bound: nat)
    requires
        forall|i: int| 0 <= i < ms.len() ==> supply_apy_of(#[trigger] ms[i], 0) <= bound,
    ensures
        sum_yield(ms) <= bound * sum_exposure(ms),
    decreases ms.len(),
{
    if ms.len() == 0 {
        assert(bound * 0 == 0);
    } else {
        let rest = ms.drop_last();
        let m = ms.last();
        assert forall|i: int| 0 <= i < rest.len() implies supply_apy_of(#[trigger] rest[i], 0)
            <= bound by {
            assert(rest[i] == ms[i]);
        }
        lemma_yield_at_most(rest, bound);
        assert(m == ms[ms.len() - 1]);
        lemma_mul_ordered(exposure_of(m), exposure_of(m), supply_apy_of(m, 0), bound);
        vstd::arithmetic::mul::lemma_mul_is_commutative(bound as int, exposure_of(m) as int);
        vstd::arithmetic::mul::lemma_mul_is_distributive_add(
            bound as int,
            sum_exposure(rest) as int,
            exposure_of(m) as int,
        );
    }
}

/// A vault never earns more than the best of its markets pays, as long as its
/// assets and the deposit together can be counted in 256 bits.
pub proof fn law_net_apy_within_best_market(
    ms: Seq<MarketReading>,
    fee: nat,
    deposit: nat,
    best: nat,
)
    requires
        sum_exposure(ms) + deposit <= u256_max(),
        forall|i: int| 0 <= i < ms.len() ==> supply_apy_of(#[trigger] ms[i], 0) <= best,
    ensures
        net_apy(ms, fee, deposit) <= best,
{
    law_deposit_never_raises_net_apy(ms, fee, deposit);
    law_fee_never_adds(weighted_apy(ms, 0), fee);
    let total = sum_exposure(ms);
    if total != 0 {
        lemma_yield_at_most(ms, best);
        lemma_div_at_most(cap(sum_yield(ms)), total, best);
    }
}

/// A vault without assets earns nothing, whatever its fee and the deposit.
pub proof fn law_no_assets_no_yield(ms: Seq<MarketReading>, fee: nat, deposit: nat)
    requires
        sum_exposure(ms) == 0,
    ensures
        weighted_apy(ms, deposit) == 0,
        net_apy(ms, fee, deposit) == 0,
{
    law_fee_never_adds(0, fee);
}

/// A market without an interest rate model pays its suppliers nothing.
pub proof fn law_no_rate_model_no_supply_apy(m: MarketReading, added: nat)
    requires
        m.borrow_rate is None,
    ensures
        supply_apy_of(m, added) == 0,
{
    let u = utilization(
        m.market.total_borrow_assets as nat,
        cap(m.market.total_supply_assets as nat + added),
    );
    assert(0 * u == 0);
    law_fee_never_adds(0, m.market.fee as nat);
}

/// No more than the whole supply is in use where no more is borrowed than is
/// supplied.
pub proof fn law_utilization_at_most_one(borrow: nat, supply: nat)
    requires
        borrow <= supply,
    ensures
        utilization(borrow, supply) <= wad(),
{
    if supply > 0 {
        assert(borrow * wad() <= wad() * supply) by (nonlinear_arith)
            requires
                borrow <= supply,
        ;
        lemma_div_at_most(cap(borrow * wad()), supply, wad());
    }
}

/// Suppliers never earn more than borrowers pay, in a market that lends no more
/// than it has.
pub proof fn law_supply_apy_at_most_borrow_apy(m: MarketReading, added: nat)
    requires
        m.market.total_borrow_assets <= m.market.total_supply_assets,
    ensures
        supply_apy_of(m, added) <= borrow_apy_of(m),
{
    let borrow = m.market.total_borrow_assets as nat;
    let supply = cap(m.market.total_supply_assets as nat + added);
    let used = utilization(borrow, supply);
    let apy = borrow_apy_of(m);
    law_utilization_at_most_one(borrow, supply);
    lemma_mul_ordered(apy, apy, used, wad());
    lemma_div_at_most(cap(apy * used), wad(), apy);
    law_fee_never_adds(cap(apy * used) / wad(), m.market.fee as nat);
}

/// The APY is `x + x^2/2 + x^3/6` for `x` the rate over the whole time, each
/// term rounded down, as long as one more than it fits in 256 bits.
pub proof fn law_third_order_expansion(rate: nat, seconds: nat)
    requires
        ({
            let x = rate * seconds;
            let x2 = x * x / wad();
            let x3 = x2 * x / wad();
            &&& x * x <= u256_max()
            &&& x2 * x <= u256_max()
            &&& wad() + x + x2 / 2 + x3 / 6 <= u256_max()
        }),
    ensures
        ({
            let x = rate * seconds;
            let x2 = x * x / wad();
            let x3 = x2 * x / wad();
            taylor_apy(rate, seconds) == x + x2 / 2 + x3 / 6
        }),
{
}

/// At a rate of zero nothing accrues.
pub proof fn law_zero_rate_zero_apy(seconds: nat)
    ensures
        taylor_apy(0, seconds) == 0,
{
    let x = cap(0 * seconds);
    assert(0 * seconds == 0);
    assert(x * x == 0) by (nonlinear_arith)
        requires
            x == 0,
    ;
    let x2 = cap(x * x) / wad();
    assert(x2 * x == 0) by (nonlinear_arith)
        requires
            x == 0,
    ;
}

/// A higher rate never gives a lower APY.
pub proof fn law_apy_follows_rate(rate: nat, higher: nat, seconds: nat)
    requires
        rate <= higher,
    ensures
        taylor_apy(rate, seconds) <= taylor_apy(higher, seconds),
{
    lemma_mul_ordered(rate, higher, seconds, seconds);
    let x = cap(rate * seconds);
    let y = cap(higher * seconds);
    lemma_mul_ordered(x, y, x, y);
    lemma_div_ordered(cap(x * x), cap(y * y), wad());
    let x2 = cap(x * x) / wad();
    let y2 = cap(y * y) / wad();
    lemma_mul_ordered(x2, y2, x, y);
    lemma_div_ordered(cap(x2 * x), cap(y2 * y), wad());
}

/// Compounding earns at least simple interest, as far as 256 bits can count.
pub proof fn law_apy_at_least_simple_interest(rate: nat, seconds: nat)
    requires
        wad() + rate * seconds <= u256_max(),
    ensures
        taylor_apy(rate, seconds) >= rate * seconds,
{
}

/// The quotient of `a` by `d` is the number of whole divisors in `a`.
proof fn lemma_floor(a: nat, d: nat)
    requires
        d > 0,
    ensures
        (a / d) * d <= a < (a / d + 1) * d,
{
    let q = a / d;
    vstd::arithmetic::div_mod::lemma_fundamental_div_mod(a as int, d as int);
    assert(q * d <= a < (q + 1) * d) by (nonlinear_arith)
        requires
            a == d * q + a % d,
            0 <= a % d < d,
    ;
}

/// Only the quotient is that number.
proof fn lemma_floor_is_unique(a: nat, d: nat, q: nat)
    requires
        q * d <= a < (q + 1) * d,
    ensures
        d > 0,
        a / d == q,
{
    assert(d > 0) by (nonlinear_arith)
        requires
            q * d < (q + 1) * d,
    ;
    lemma_floor(a, d);
    let p = a / d;
    assert(p == q) by (nonlinear_arith)
        requires
            q * d <= a < (q + 1) * d,
            p * d <= a < (p + 1) * d,
            d > 0,
    ;
}

/// The yearly rate that borrowers of a market pay is `x + x^2/2 + x^3/6`, each
/// term rounded down, for `x` the rate that was read over the seconds of a year,
/// as long as one more than it fits in 256 bits.
pub proof fn law_borrow_apy_expands_the_rate_read(m: MarketReading, x: nat, x2: nat, x3: nat)
    requires
        m.borrow_rate is Some,
        x == m.borrow_rate->Some_0@ * 31_536_000,
        x2 * 1_000_000_000_000_000_000 <= x * x < (x2 + 1) * 1_000_000_000_000_000_000,
        x3 * 1_000_000_000_000_000_000 <= x2 * x < (x3 + 1) * 1_000_000_000_000_000_000,
        x * x <= u256_max(),
        x2 * x <= u256_max(),
        1_000_000_000_000_000_000 + x + x2 / 2 + x3 / 6 <= u256_max(),
    ensures
        borrow_apy_of(m) == x + x2 / 2 + x3 / 6,
{
    lemma_floor_is_unique(x * x, 1_000_000_000_000_000_000, x2);
    lemma_floor_is_unique(x2 * x, 1_000_000_000_000_000_000, x3);
}

/// The expansion over any time and at any rate, with each of its products and
/// its sum cut off at 256 bits.
pub proof fn law_expansion_at_any_rate(rate: nat, seconds: nat, x: nat, x2: nat, x3: nat)
    requires
        x == cap(rate * seconds),
        x2 * 1_000_000_000_000_000_000 <= cap(x * x) < (x2 + 1) * 1_000_000_000_000_000_000,
        x3 * 1_000_000_000_000_000_000 <= cap(x2 * x) < (x3 + 1) * 1_000_000_000_000_000_000,
    ensures
        taylor_apy(rate, seconds) + 1_000_000_000_000_000_000 == cap(
            1_000_000_000_000_000_000 + x + x2 / 2 + x3 / 6,
        ),
{
    lemma_floor_is_unique(cap(x * x), 1_000_000_000_000_000_000, x2);
    lemma_floor_is_unique(cap(x2 * x), 1_000_000_000_000_000_000, x3);
}

/// The yearly rate that borrowers of a market pay, at any rate that was read:
/// the expansion with each of its products and its sum cut off at 256 bits.
pub proof fn law_borrow_apy_at_any_rate(m: MarketReading, x: nat, x2: nat, x3: nat)
    requires
        m.borrow_rate is Some,
        x == cap(m.borrow_rate->Some_0@ * 31_536_000),
        x2 * 1_000_000_000_000_000_000 <= cap(x * x) < (x2 + 1) * 1_000_000_000_000_000_000,
        x3 * 1_000_000_000_000_000_000 <= cap(x2 * x) < (x3 + 1) * 1_000_000_000_000_000_000,
    ensures
        borrow_apy_of(m) + 1_000_000_000_000_000_000 == cap(
            1_000_000_000_000_000_000 + x + x2 / 2 + x3 / 6,
        ),
{
    law_expansion_at_any_rate(m.borrow_rate->Some_0@, 31_536_000, x, x2, x3);
}

/// A market whose model sets a higher rate has no lower a borrow APY, and a
/// strictly higher one unless it is cut off at 256 bits.
pub proof fn law_borrow_apy_follows_rate_read(m: MarketReading, n: MarketReading)
    requires
        m.borrow_rate is Some,
        n.borrow_rate is Some,
        m.borrow_rate->Some_0@ < n.borrow_rate->Some_0@,
    ensures
        borrow_apy_of(m) <= borrow_apy_of(n),
        borrow_apy_of(n) + 1_000_000_000_000_000_000 < u256_max() ==> borrow_apy_of(m)
            < borrow_apy_of(n),
{
    let a = m.borrow_rate->Some_0@;
    let b = n.borrow_rate->Some_0@;
    law_apy_follows_rate(a, b, 31_536_000);
    let x = cap(a * 31_536_000);
    let y = cap(b * 31_536_000);
    lemma_mul_ordered(x, y, x, y);
    lemma_div_ordered(cap(x * x), cap(y * y), wad());
    let x2 = cap(x * x) / wad();
    let y2 = cap(y * y) / wad();
    lemma_mul_ordered(x2, y2, x, y);
    lemma_div_ordered(cap(x2 * x), cap(y2 * y), wad());
}

/// A market without an interest rate model charges its borrowers nothing.
pub proof fn law_no_rate_model_no_borrow_apy(m: MarketReading)
    requires
        m.borrow_rate is None,
    ensures
        borrow_apy_of(m) == 0,
{
}

/// The vault's assets in a market are its part of the supply, by shares: the
/// number of whole units of `p * s / t`, for `p` of `t` shares and `s` assets.
/// A market without shares counts as one with a single share.
pub proof fn law_exposure_is_part_of_supply(m: MarketReading)
    ensures
        ({
            let p = m.vault_shares@;
            let s = m.market.total_supply_assets as nat;
            let t = m.market.total_supply_shares as nat;
            let e = exposure_of(m);
            &&& t > 0 ==> e * t <= cap(p * s) < (e + 1) * t
            &&& t > 0 && p * s <= u256_max() ==> e * t <= p * s < (e + 1) * t
            &&& t == 0 ==> e == cap(p * s)
        }),
{
    let p = m.vault_shares@;
    let s = m.market.total_supply_assets as nat;
    let t = m.market.total_supply_shares as nat;
    if t > 0 {
        lemma_floor(cap(p * s), t);
    }
}

/// The only supplier of a market is exposed to all of its supply.
pub proof fn law_sole_supplier_has_all(m: MarketReading)
    requires
        m.vault_shares@ == m.market.total_supply_shares,
        m.market.total_supply_shares > 0,
    ensures
        exposure_of(m) == m.market.total_supply_assets,
{
    let s = m.market.total_supply_assets as nat;
    let t = m.market.total_supply_shares as nat;
    assert(t * s <= u256_max()) by (nonlinear_arith)
        requires
            t <= 0xffff_ffff_ffff_ffff_ffff_ffff_ffff_ffff,
            s <= 0xffff_ffff_ffff_ffff_ffff_ffff_ffff_ffff,
    ;
    assert(s * t <= t * s < (s + 1) * t) by (nonlinear_arith)
        requires
            t > 0,
    ;
    lemma_floor_is_unique(t * s, t, s);
}

/// What is left once a fee is taken off: the number of whole units of
/// `amount * (1 - fee)`.
pub proof fn law_fee_takes_its_part(amount: nat, fee: nat)
    requires
        fee <= 1_000_000_000_000_000_000,
    ensures
        ({
            let kept = (1_000_000_000_000_000_000 - fee) as nat;
            let left = after_fee(amount, fee);
            &&& left * 1_000_000_000_000_000_000 <= cap(amount * kept) < (left + 1)
                * 1_000_000_000_000_000_000
            &&& amount * kept <= u256_max() ==> left * 1_000_000_000_000_000_000 <= amount * kept
                < (left + 1) * 1_000_000_000_000_000_000
        }),
{
}

/// The vault's fee is taken off the APY of its assets once, as a part of it:
/// the net APY is the number of whole units of `w * (1 - fee)`, for `w` the
/// weighted APY. A fee of the whole, or more, leaves nothing.
pub proof fn law_net_apy_is_weighted_apy_less_fee(ms: Seq<MarketReading>, fee: nat, deposit: nat)
    ensures
        ({
            let w = weighted_apy(ms, deposit);
            let net = net_apy(ms, fee, deposit);
            let kept = (1_000_000_000_000_000_000 - fee) as nat;
            &&& fee <= 1_000_000_000_000_000_000 ==> net * 1_000_000_000_000_000_000 <= cap(
                w * kept,
            ) < (net + 1) * 1_000_000_000_000_000_000
            &&& fee <= 1_000_000_000_000_000_000 && w * kept <= u256_max() ==> net
                * 1_000_000_000_000_000_000 <= w * kept < (net + 1) * 1_000_000_000_000_000_000
            &&& fee >= 1_000_000_000_000_000_000 ==> net == 0
        }),
{
    let w = weighted_apy(ms, deposit);
    if fee <= 1_000_000_000_000_000_000 {
        law_fee_takes_its_part(w, fee);
    } else {
        law_whole_fee_leaves_nothing(w, fee);
    }
    if fee == 1_000_000_000_000_000_000 {
        law_whole_fee_leaves_nothing(w, fee);
    }
}

/// A vault without a fee keeps the whole APY of its assets, as far as 256 bits
/// can count.
pub proof fn law_no_fee_keeps_all(ms: Seq<MarketReading>, deposit: nat)
    requires
        weighted_apy(ms, deposit) * 1_000_000_000_000_000_000 <= u256_max(),
    ensures
        net_apy(ms, 0, deposit) == weighted_apy(ms, deposit),
{
}

/// A vault with a higher fee has no higher a net APY.
pub proof fn law_higher_fee_never_raises_net_apy(
    ms: Seq<MarketReading>,
    fee: nat,
    higher: nat,
    deposit: nat,
)
    requires
        fee <= higher,
    ensures
        net_apy(ms, higher, deposit) <= net_apy(ms, fee, deposit),
{
    law_higher_fee_never_leaves_more(weighted_apy(ms, deposit), fee, higher);
}

/// Utilization is the number of whole units of `borrow / supply`, and zero in a
/// market without supply.
pub proof fn law_utilization_is_borrow_over_supply(borrow: nat, supply: nat)
    ensures
        ({
            let u = utilization(borrow, supply);
            &&& supply > 0 ==> u * supply <= cap(borrow * 1_000_000_000_000_000_000) < (u + 1)
                * supply
            &&& supply > 0 && borrow * 1_000_000_000_000_000_000 <= u256_max() ==> u * supply
                <= borrow * 1_000_000_000_000_000_000 < (u + 1) * supply
            &&& supply == 0 ==> u == 0
        }),
{
    if supply > 0 {
        lemma_floor(cap(borrow * 1_000_000_000_000_000_000), supply);
    }
}

/// What suppliers earn: the number of whole units of `borrow_apy * used`, less
/// the fee as a part of it. A fee of the whole, or more, leaves nothing.
pub proof fn law_supply_apy_is_lent_part_less_fee(borrow_apy: nat, used: nat, fee: nat, gross: nat)
    requires
        gross * 1_000_000_000_000_000_000 <= cap(borrow_apy * used) < (gross + 1)
            * 1_000_000_000_000_000_000,
    ensures
        ({
            let apy = supply_apy(borrow_apy, used, fee);
            let kept = (1_000_000_000_000_000_000 - fee) as nat;
            &&& fee <= 1_000_000_000_000_000_000 ==> apy * 1_000_000_000_000_000_000 <= cap(
                gross * kept,
            ) < (apy + 1) * 1_000_000_000_000_000_000
            &&& fee >= 1_000_000_000_000_000_000 ==> apy == 0
        }),
{
    lemma_floor_is_unique(cap(borrow_apy * used), 1_000_000_000_000_000_000, gross);
    if fee <= 1_000_000_000_000_000_000 {
        law_fee_takes_its_part(gross, fee);
    }
    if fee >= 1_000_000_000_000_000_000 {
        law_whole_fee_leaves_nothing(gross, fee);
    }
}

/// What a market pays its suppliers once its supply has grown by `added`: the
/// borrow APY times the utilization of the grown supply, less the market's fee,
/// each product rounded down to whole units and cut off at 256 bits.
pub proof fn law_supply_apy_of_grown_supply(
    m: MarketReading,
    added: nat,
    used: nat,
    gross: nat,
    apy: nat,
)
    requires
        m.market.total_supply_assets + added > 0,
        ({
            let supply = cap(m.market.total_supply_assets as nat + added);
            let borrow = m.market.total_borrow_assets as nat;
            used * supply <= borrow * 1_000_000_000_000_000_000 < (used + 1) * supply
        }),
        gross * 1_000_000_000_000_000_000 <= cap(borrow_apy_of(m) * used) < (gross + 1)
            * 1_000_000_000_000_000_000,
        m.market.fee <= 1_000_000_000_000_000_000,
        apy * 1_000_000_000_000_000_000 <= cap(
            gross * (1_000_000_000_000_000_000 - m.market.fee) as nat,
        ) < (apy + 1) * 1_000_000_000_000_000_000,
    ensures
        supply_apy_of(m, added) == apy,
{
    let supply = cap(m.market.total_supply_assets as nat + added);
    let borrow = m.market.total_borrow_assets as nat;
    let kept = (1_000_000_000_000_000_000 - m.market.fee) as nat;
    lemma_floor_is_unique(borrow * 1_000_000_000_000_000_000, supply, used);
    lemma_floor_is_unique(cap(borrow_apy_of(m) * used), 1_000_000_000_000_000_000, gross);
    lemma_floor_is_unique(cap(gross * kept), 1_000_000_000_000_000_000, apy);
    assert(monus(wad(), m.market.fee as nat) == kept);
}

/// A market without supply, or with a fee of the whole, pays its suppliers
/// nothing.
pub proof fn law_nothing_to_pay(m: MarketReading, added: nat)
    requires
        m.market.total_supply_assets + added == 0 || m.market.fee >= 1_000_000_000_000_000_000,
    ensures
        supply_apy_of(m, added) == 0,
{
    let b = borrow_apy_of(m);
    let u = utilization(
        m.market.total_borrow_assets as nat,
        cap(m.market.total_supply_assets as nat + added),
    );
    let fee = m.market.fee as nat;
    if fee >= 1_000_000_000_000_000_000 {
        law_whole_fee_leaves_nothing(cap(b * u) / wad(), fee);
    } else {
        assert(b * u == 0) by (nonlinear_arith)
            requires
                u == 0,
        ;
        law_fee_never_adds(0, fee);
    }
}

/// The yield of the vault's exposure to a market after a deposit, where nothing
/// exceeds 256 bits: exposure and supply have both grown by the market's part
/// of the deposit, so that utilization is that of the grown supply.
pub proof fn law_deposit_dilutes_utilization(m: MarketReading, total: nat, deposit: nat)
    requires
        ({
            let one: nat = 1_000_000_000_000_000_000;
            let added = allocation_of(m, total, deposit);
            let supply = m.market.total_supply_assets as nat + added;
            let used = m.market.total_borrow_assets as nat * one / supply;
            let gross = borrow_apy_of(m) * used / one;
            &&& m.market.total_supply_assets > 0
            &&& m.market.fee <= one
            &&& supply <= u256_max()
            &&& exposure_of(m) + added <= u256_max()
            &&& borrow_apy_of(m) * used <= u256_max()
            &&& gross * (one - m.market.fee) <= u256_max()
        }),
    ensures
        ({
            let one: nat = 1_000_000_000_000_000_000;
            let added = allocation_of(m, total, deposit);
            let supply = m.market.total_supply_assets as nat + added;
            let used = m.market.total_borrow_assets as nat * one / supply;
            let gross = borrow_apy_of(m) * used / one;
            yield_after_of(m, total, deposit) == (exposure_of(m) + added) * (gross * (one
                - m.market.fee) as nat / one)
        }),
{
    let one: nat = 1_000_000_000_000_000_000;
    assert(monus(wad(), m.market.fee as nat) == one - m.market.fee);
}

/// The yield of the vault's exposure to a market after any deposit: the grown
/// exposure times what the grown market pays.
pub proof fn law_yield_after_deposit(
    m: MarketReading,
    total: nat,
    deposit: nat,
    used: nat,
    gross: nat,
    apy: nat,
)
    requires
        ({
            let supply = cap(
                m.market.total_supply_assets as nat + allocation_of(m, total, deposit),
            );
            let borrow = m.market.total_borrow_assets as nat;
            used * supply <= borrow * 1_000_000_000_000_000_000 < (used + 1) * supply
        }),
        gross * 1_000_000_000_000_000_000 <= cap(borrow_apy_of(m) * used) < (gross + 1)
            * 1_000_000_000_000_000_000,
        m.market.fee <= 1_000_000_000_000_000_000,
        apy * 1_000_000_000_000_000_000 <= cap(
            gross * (1_000_000_000_000_000_000 - m.market.fee) as nat,
        ) < (apy + 1) * 1_000_000_000_000_000_000,
    ensures
        yield_after_of(m, total, deposit) == cap(exposure_of(m) + allocation_of(m, total, deposit))
            * apy,
{
    let added = allocation_of(m, total, deposit);
    let supply = cap(m.market.total_supply_assets as nat + added);
    assert(supply > 0) by (nonlinear_arith)
        requires
            used * supply < (used + 1) * supply,
    ;
    law_supply_apy_of_grown_supply(m, added, used, gross, apy);
}

/// A market that pays nothing after a deposit yields nothing after it.
pub proof fn law_no_pay_no_yield_after_deposit(m: MarketReading, total: nat, deposit: nat)
    requires
        supply_apy_of(m, allocation_of(m, total, deposit)) == 0,
    ensures
        yield_after_of(m, total, deposit) == 0,
{
    let grown = cap(exposure_of(m) + allocation_of(m, total, deposit));
    assert(grown * 0 == 0);
}

/// The part of a deposit that goes to a market is the deposit times the
/// market's weight, which is its exposure over the vault's total, both rounded
/// down to whole units. Without a total there are no weights.
pub proof fn law_allocation_is_weight_of_deposit(
    exposure: nat,
    total: nat,
    deposit: nat,
    weight: nat,
)
    requires
        total > 0 ==> weight * total <= cap(exposure * 1_000_000_000_000_000_000) < (weight + 1)
            * total,
        total == 0 ==> weight == 0,
    ensures
        ({
            let added = allocation(exposure, total, deposit);
            &&& added * 1_000_000_000_000_000_000 <= cap(deposit * weight) < (added + 1)
                * 1_000_000_000_000_000_000
            &&& deposit * weight <= u256_max() ==> added * 1_000_000_000_000_000_000 <= deposit
                * weight < (added + 1) * 1_000_000_000_000_000_000
        }),
{
    if total > 0 {
        lemma_floor_is_unique(cap(exposure * 1_000_000_000_000_000_000), total, weight);
    }
    lemma_floor(cap(deposit * weight), 1_000_000_000_000_000_000);
}

/// Markets in which the vault has the same exposure get the same part of a
/// deposit, which is the part that goes to that exposure.
pub proof fn law_allocation_goes_by_exposure(
    m: MarketReading,
    exposure: nat,
    total: nat,
    deposit: nat,
)
    requires
        exposure_of(m) == exposure,
    ensures
        allocation_of(m, total, deposit) == allocation(exposure, total, deposit),
{
}

/// The only market of a vault gets the whole deposit, where nothing exceeds 256
/// bits.
pub proof fn law_sole_market_gets_whole_deposit(m: MarketReading, deposit: nat)
    requires
        exposure_of(m) > 0,
        exposure_of(m) * 1_000_000_000_000_000_000 <= u256_max(),
        deposit * 1_000_000_000_000_000_000 <= u256_max(),
    ensures
        allocation_of(m, exposure_of(m), deposit) == deposit,
{
    let one: nat = 1_000_000_000_000_000_000;
    let e = exposure_of(m);
    assert(one * e <= e * one < (one + 1) * e) by (nonlinear_arith)
        requires
            e > 0,
    ;
    law_allocation_is_weight_of_deposit(e, e, deposit, one);
}

/// A further market adds its exposure and its yield to the vault's, wherever it
/// stands in the queue; a vault without markets has neither.
pub proof fn law_every_market_counts(
    ms: Seq<MarketReading>,
    m: MarketReading,
    total: nat,
    deposit: nat,
)
    ensures
        sum_exposure(ms.push(m)) == sum_exposure(ms) + exposure_of(m),
        sum_yield(ms.push(m)) == sum_yield(ms) + exposure_of(m) * supply_apy_of(m, 0),
        sum_yield_after(ms.push(m), total, deposit) == sum_yield_after(ms, total, deposit)
            + yield_after_of(m, total, deposit),
        sum_exposure(seq![]) == 0,
        sum_yield(seq![]) == 0,
        sum_yield_after(seq![], total, deposit) == 0,
{
    assert(ms.push(m).drop_last() =~= ms);
}

/// The sums over a queue are those over its two parts, added up.
proof fn lemma_sums_of_parts(
    a: Seq<MarketReading>,
    b: Seq<MarketReading>,
    total: nat,
    deposit: nat,
)
    ensures
        sum_exposure(a + b) == sum_exposure(a) + sum_exposure(b),
        sum_yield(a + b) == sum_yield(a) + sum_yield(b),
        sum_yield_after(a + b, total, deposit) == sum_yield_after(a, total, deposit)
            + sum_yield_after(b, total, deposit),
    decreases b.len(),
{
    if b.len() == 0 {
        assert(a + b =~= a);
    } else {
        lemma_sums_of_parts(a, b.drop_last(), total, deposit);
        assert((a + b).drop_last() =~= a + b.drop_last());
        assert((a + b).last() == b.last());
    }
}

/// The order of the markets does not matter: two parts of the queue can change
/// places.
pub proof fn law_order_does_not_matter(
    a: Seq<MarketReading>,
    b: Seq<MarketReading>,
    fee: nat,
    deposit: nat,
)
    ensures
        weighted_apy(a + b, deposit) == weighted_apy(b + a, deposit),
        net_apy(a + b, fee, deposit) == net_apy(b + a, fee, deposit),
{
    let total = cap(sum_exposure(a + b));
    lemma_sums_of_parts(a, b, total, deposit);
    lemma_sums_of_parts(b, a, total, deposit);
}

/// The APY of the vault's assets is their yield over their sum: the number of
/// whole units of `Y / T`. After a deposit it is the yield after it, over the
/// sum of assets and deposit. Sums are cut off at 256 bits.
pub proof fn law_weighted_apy_is_yield_over_assets(ms: Seq<MarketReading>, deposit: nat)
    requires
        sum_exposure(ms) > 0,
    ensures
        ({
            let total = cap(sum_exposure(ms));
            let w = weighted_apy(ms, deposit);
            &&& deposit == 0 ==> w * total <= cap(sum_yield(ms)) < (w + 1) * total
            &&& deposit > 0 ==> w * cap(total + deposit) <= cap(
                sum_yield_after(ms, total, deposit),
            ) < (w + 1) * cap(total + deposit)
        }),
{
    let total = cap(sum_exposure(ms));
    if deposit == 0 {
        lemma_floor(cap(sum_yield(ms)), total);
    } else {
        lemma_floor(cap(sum_yield_after(ms, total, deposit)), cap(total + deposit));
    }
}

/// Exposures yield no less than the lowest supply APY gives on their sum.
proof fn lemma_yield_at_least(ms: Seq<MarketReading>, bound: nat)
    requires
        forall|i: int| 0 <= i < ms.len() ==> supply_apy_of(#[trigger] ms[i], 0) >= bound,
    ensures
        sum_yield(ms) >= bound * sum_exposure(ms),
    decreases ms.len(),
{
    if ms.len() == 0 {
        assert(bound * 0 == 0);
    } else {
        let rest = ms.drop_last();
        let m = ms.last();
        assert forall|i: int| 0 <= i < rest.len() implies supply_apy_of(#[trigger] rest[i], 0)
            >= bound by {
            assert(rest[i] == ms[i]);
        }
        lemma_yield_at_least(rest, bound);
        assert(m == ms[ms.len() - 1]);
        lemma_mul_ordered(exposure_of(m), exposure_of(m), bound, supply_apy_of(m, 0));
        vstd::arithmetic::mul::lemma_mul_is_commutative(bound as int, exposure_of(m) as int);
        vstd::arithmetic::mul::lemma_mul_is_distributive_add(
            bound as int,
            sum_exposure(rest) as int,
            exposure_of(m) as int,
        );
    }
}

/// A vault never earns less than the worst of its markets pays, before its fee
/// and as long as its assets and their yield can be counted in 256 bits.
pub proof fn law_weighted_apy_within_worst_market(ms: Seq<MarketReading>, worst: nat)
    requires
        0 < sum_exposure(ms) <= u256_max(),
        sum_yield(ms) <= u256_max(),
        forall|i: int| 0 <= i < ms.len() ==> supply_apy_of(#[trigger] ms[i], 0) >= worst,
    ensures
        weighted_apy(ms, 0) >= worst,
{
    let total = sum_exposure(ms);
    lemma_yield_at_least(ms, worst);
    lemma_div_ordered(worst * total, sum_yield(ms), total);
    vstd::arithmetic::div_mod::lemma_div_by_multiple(worst as int, total as int);
}

} // verus!
