use indexer_morpho::apy::{
    after_fee_wad, deposit_allocation, exp_wad, market_borrow_apy, market_exposure,
    market_supply_apy, net_apy_wad, supply_apy_wad, utilization_wad, weighted_apy_wad, WAD,
};
use indexer_morpho::market::{Market, MarketReading};
use indexer_morpho::percent::net_apy_percent;
use indexer_morpho::u256::U256;

const YEAR: u128 = 31_536_000;

fn u(n: u128) -> U256 {
    U256::from_limbs([n as u64, (n >> 64) as u64, 0, 0])
}

fn max() -> U256 {
    U256::from_limbs([u64::MAX; 4])
}

fn reading(
    supply_assets: u128,
    supply_shares: u128,
    borrow_assets: u128,
    fee: u128,
    vault_shares: u128,
    rate: Option<u128>,
) -> MarketReading {
    MarketReading {
        market: Market {
            total_supply_assets: supply_assets,
            total_supply_shares: supply_shares,
            total_borrow_assets: borrow_assets,
            total_borrow_shares: 0,
            last_update: 0,
            fee,
        },
        vault_shares: u(vault_shares),
        borrow_rate: rate.map(u),
    }
}

fn markets() -> Vec<MarketReading> {
    vec![
        reading(
            1_000_000_000_000,
            1_000_000_000_000_000_000,
            900_000_000_000,
            100_000_000_000_000_000,
            500_000_000_000_000_000,
            Some(1_500_000_000),
        ),
        reading(
            2_000_000_000_000,
            1_900_000_000_000_000_000,
            1_000_000_000_000,
            0,
            100_000_000_000_000_000,
            Some(3_000_000_000),
        ),
        reading(
            5_000_000_000_000,
            4_000_000_000_000_000_000,
            1_000_000_000_000,
            0,
            1_000_000_000_000_000_000,
            None,
        ),
    ]
}

#[test]
fn rates_compound_to_the_third_order() {
    assert_eq!(exp_wad(u(1_000_000_000), YEAR), u(32_038_486_841_419_776));
    assert_eq!(exp_wad(u(1_500_000_000), YEAR), u(48_440_475_985_791_744));
    // 100% of x gives 1 + 1/2 + 1/6.
    assert_eq!(exp_wad(u(WAD), 1), u(1_666_666_666_666_666_666));
}

#[test]
fn zero_rate_accrues_nothing() {
    assert_eq!(exp_wad(u(0), YEAR), u(0));
    assert_eq!(exp_wad(u(5), 0), u(0));
}

#[test]
fn rates_saturate() {
    // The largest value, less one WAD.
    let limit = U256::from_limbs([
        u64::MAX - 1_000_000_000_000_000_000,
        u64::MAX,
        u64::MAX,
        u64::MAX,
    ]);
    assert_eq!(exp_wad(max(), 1), limit);
    assert_eq!(exp_wad(max(), u128::MAX), limit);
}

#[test]
fn utilization_is_borrowed_over_supplied() {
    assert_eq!(utilization_wad(u(9), u(10)), u(900_000_000_000_000_000));
    assert_eq!(utilization_wad(u(1), u(3)), u(333_333_333_333_333_333));
    assert_eq!(utilization_wad(u(20), u(10)), u(2 * WAD));
    assert_eq!(utilization_wad(u(9), u(0)), u(0));
    assert_eq!(utilization_wad(max(), max()), u(1));
}

#[test]
fn fees_are_taken_off() {
    assert_eq!(after_fee_wad(u(1_000), u(100_000_000_000_000_000)), u(900));
    assert_eq!(after_fee_wad(u(1_000), u(0)), u(1_000));
    assert_eq!(after_fee_wad(u(1_000), u(WAD)), u(0));
    assert_eq!(after_fee_wad(u(1_000), max()), u(0));
    assert_eq!(after_fee_wad(u(3), u(1)), u(2));
}

#[test]
fn supply_apy_is_borrow_apy_in_use_less_fee() {
    assert_eq!(
        supply_apy_wad(
            u(48_440_475_985_791_744),
            u(900_000_000_000_000_000),
            u(100_000_000_000_000_000)
        ),
        u(39_236_785_548_491_312)
    );
}

#[test]
fn markets_are_measured() {
    let ms = markets();
    let exposures: Vec<U256> = ms.iter().map(market_exposure).collect();
    assert_eq!(exposures, vec![u(500_000_000_000), u(105_263_157_894), u(1_250_000_000_000)]);
    let borrow: Vec<U256> = ms.iter().map(market_borrow_apy).collect();
    assert_eq!(borrow, vec![u(48_440_475_985_791_744), u(99_224_471_054_333_952), u(0)]);
    let supply: Vec<U256> = ms.iter().map(|m| market_supply_apy(m, u(0))).collect();
    assert_eq!(supply, vec![u(39_236_785_548_491_312), u(49_612_235_527_166_976), u(0)]);
}

#[test]
fn shares_without_a_total_count_as_assets() {
    // No supply shares at all: divided by one, not by zero.
    assert_eq!(market_exposure(&reading(7, 0, 0, 0, 3, None)), u(21));
    assert_eq!(market_exposure(&reading(0, 0, 0, 0, 3, None)), u(0));
}

#[test]
fn deposits_are_split_by_exposure() {
    assert_eq!(deposit_allocation(u(500), u(2_000), u(100)), u(25));
    assert_eq!(deposit_allocation(u(0), u(2_000), u(100)), u(0));
    assert_eq!(deposit_allocation(u(1), u(0), u(100)), u(0));
    let total = u(1_855_263_157_894);
    let parts: Vec<U256> = markets()
        .iter()
        .map(|m| deposit_allocation(market_exposure(m), total, u(1_000_000_000_000)))
        .collect();
    assert_eq!(parts, vec![u(269_503_546_099), u(56_737_588_652), u(673_758_865_248)]);
}

#[test]
fn vault_apy_is_weighted_by_exposure() {
    let ms = markets();
    assert_eq!(weighted_apy_wad(&ms, u(0)), u(13_389_331_454_311_894));
    assert_eq!(net_apy_wad(&ms, u(100_000_000_000_000_000), u(0)), u(12_050_398_308_880_704));
    assert_eq!(net_apy_percent(&ms, u(100_000_000_000_000_000), u(0)), "1.20%");
}

#[test]
fn deposits_lower_the_apy() {
    let ms = markets();
    let fee = u(100_000_000_000_000_000);
    assert_eq!(net_apy_wad(&ms, fee, u(1)), u(12_050_398_308_874_209));
    assert_eq!(net_apy_wad(&ms, fee, u(1_000_000_000_000)), u(9_960_141_347_792_439));
    assert_eq!(net_apy_wad(&ms, fee, u(10_000_000_000_000)), u(4_549_145_478_953_805));
    assert_eq!(net_apy_wad(&ms, fee, max()), u(0));
    assert_eq!(net_apy_percent(&ms, fee, u(1_000_000_000_000)), "0.99%");
    for m in &ms {
        for added in [1u128, 1_000_000, 1_000_000_000_000] {
            let before = market_supply_apy(m, u(0)).into_limbs();
            let after = market_supply_apy(m, u(added)).into_limbs();
            assert_eq!((before[1], before[2], before[3]), (0, 0, 0));
            assert_eq!((after[1], after[2], after[3]), (0, 0, 0));
            assert!(after[0] <= before[0]);
        }
    }
}

#[test]
fn vault_fee_of_the_whole_leaves_nothing() {
    assert_eq!(net_apy_wad(&markets(), u(WAD), u(0)), u(0));
    assert_eq!(net_apy_wad(&markets(), u(0), u(0)), u(13_389_331_454_311_894));
}

#[test]
fn empty_vaults_earn_nothing() {
    assert_eq!(net_apy_wad(&vec![], u(0), u(0)), u(0));
    assert_eq!(net_apy_percent(&vec![], u(0), u(0)), "0.00%");
    assert_eq!(net_apy_percent(&vec![], u(0), u(1_000)), "0.00%");
    let without_shares = vec![reading(1_000, 1_000, 900, 0, 0, Some(3_000_000_000))];
    assert_eq!(net_apy_percent(&without_shares, u(0), u(1_000)), "0.00%");
}

#[test]
fn markets_without_a_rate_model_pay_nothing() {
    let ms = vec![reading(1_000, 1_000, 900, 0, 500, None)];
    assert_eq!(weighted_apy_wad(&ms, u(0)), u(0));
    assert_eq!(weighted_apy_wad(&ms, u(10)), u(0));
}

fn low(n: U256) -> u128 {
    let limbs = n.into_limbs();
    assert_eq!((limbs[2], limbs[3]), (0, 0));
    limbs[0] as u128 + ((limbs[1] as u128) << 64)
}

#[test]
fn allocations_stay_within_the_deposit() {
    let ms = markets();
    let total: u128 = ms.iter().map(|m| low(market_exposure(m))).sum();
    for deposit in [1u128, 999, 1_000_000_000_000, 123_456_789_012_345] {
        let sum: u128 = ms
            .iter()
            .map(|m| low(deposit_allocation(market_exposure(m), u(total), u(deposit))))
            .sum();
        assert!(sum <= deposit);
        assert!(sum + 3 + 3 * deposit / WAD >= deposit);
    }
}

#[test]
fn allocations_are_in_proportion() {
    let added = low(deposit_allocation(u(2), u(3), u(1_000)));
    assert_eq!(added, 666);
    assert!(3 * added <= 1_000 * 2);
}

#[test]
fn vaults_earn_no_more_than_their_best_market() {
    let ms = markets();
    let best = ms.iter().map(|m| low(market_supply_apy(m, u(0)))).max().unwrap();
    assert_eq!(best, 49_612_235_527_166_976);
    for deposit in [0u128, 1, 1_000_000_000_000] {
        assert!(low(net_apy_wad(&ms, u(0), u(deposit))) <= best);
    }
}

#[test]
fn suppliers_earn_no_more_than_borrowers_pay() {
    for m in &markets() {
        assert!(low(market_supply_apy(m, u(0))) <= low(market_borrow_apy(m)));
    }
}

#[test]
fn higher_fees_leave_less() {
    let ms = markets();
    let net = |fee| low(net_apy_wad(&ms, u(fee), u(0)));
    assert!(net(200_000_000_000_000_000) < net(100_000_000_000_000_000));
    assert!(net(100_000_000_000_000_000) < net(0));
}

#[test]
fn higher_rates_give_higher_yields() {
    let apy = |rate| low(exp_wad(u(rate), YEAR));
    assert!(apy(1_000_000_000) < apy(1_000_000_001));
    // No less than simple interest.
    assert!(apy(1_000_000_000) >= 1_000_000_000 * YEAR);
}

#[test]
fn uncountable_assets_may_let_a_deposit_raise_the_apy() {
    // The exposures together exceed 256 bits, so that their sum is cut off.
    let supply = 1_000_000_000_000_000_000_000_000_000_000_000_000;
    let mut half = reading(supply, 2, 47_564_687_975_000_000_000_000_000_000, 0, 0, Some(1));
    half.vault_shares = max();
    let idle = reading(1, 1, 0, 0, 10, None);
    let ms = vec![half, half, idle];
    assert_eq!(net_apy_wad(&ms, u(0), u(0)), u(0));
    assert_eq!(net_apy_wad(&ms, u(0), u(WAD)), u(1));
}
