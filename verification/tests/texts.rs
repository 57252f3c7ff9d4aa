use indexer_morpho::address::Address;
use indexer_morpho::amount::{parse_amount, strip_separators};
use indexer_morpho::percent::{wad_to_percent_string, wad_to_string};
use indexer_morpho::u256::U256;

fn u(n: u128) -> U256 {
    U256::from_limbs([n as u64, (n >> 64) as u64, 0, 0])
}

fn max() -> U256 {
    U256::from_limbs([u64::MAX; 4])
}

#[test]
fn percentages_have_two_decimal_places() {
    assert_eq!(wad_to_percent_string(u(42_300_000_000_000_000)), "4.23%");
    assert_eq!(wad_to_percent_string(u(40_500_000_000_000_000)), "4.05%");
    assert_eq!(wad_to_percent_string(u(1_000_000_000_000_000_000)), "100.00%");
    assert_eq!(wad_to_percent_string(u(0)), "0.00%");
}

#[test]
fn percentages_are_cut_off() {
    assert_eq!(wad_to_percent_string(u(42_399_999_999_999_999)), "4.23%");
    assert_eq!(wad_to_percent_string(u(99_999_999_999_999)), "0.00%");
    assert_eq!(wad_to_percent_string(u(100_000_000_000_000)), "0.01%");
    assert_eq!(
        wad_to_percent_string(max()),
        "115792089237316195423570985008687907853269984665640564039457.58%"
    );
}

#[test]
fn wads_count_five_digits_of_a_percent() {
    assert_eq!(wad_to_string(u(42_300_000_000_000_000)), "423000");
    assert_eq!(wad_to_string(u(12_050_398_308_880_704)), "120503");
    assert_eq!(wad_to_string(u(0)), "0");
    assert_eq!(
        wad_to_string(max()),
        "11579208923731619542357098500868790785326998466564056403945758400"
    );
}

#[test]
fn separators_are_stripped() {
    assert_eq!(strip_separators("1,000 000.5_0"), "100000050");
    assert_eq!(strip_separators(" ,._"), "");
    assert_eq!(strip_separators("é-,"), "é-");
}

#[test]
fn amounts_are_read_without_separators() {
    assert_eq!(parse_amount("1,000,000"), Some(u(1_000_000)));
    assert_eq!(parse_amount("1_000 000.00"), Some(u(100_000_000)));
    assert_eq!(parse_amount("0"), Some(u(0)));
    assert_eq!(parse_amount("340282366920938463463374607431768211455"), Some(u(u128::MAX)));
}

#[test]
fn amounts_may_announce_a_base() {
    assert_eq!(parse_amount("0x1F"), Some(u(31)));
    assert_eq!(parse_amount("0XfF"), Some(u(255)));
    assert_eq!(parse_amount("0o17"), Some(u(15)));
    assert_eq!(parse_amount("0b1,01"), Some(u(5)));
    assert_eq!(parse_amount("0x"), Some(u(0)));
}

#[test]
fn amounts_without_digits_are_zero() {
    assert_eq!(parse_amount(""), Some(u(0)));
    assert_eq!(parse_amount(",."), Some(u(0)));
}

#[test]
fn other_amounts_are_refused() {
    assert_eq!(parse_amount("-1"), None);
    assert_eq!(parse_amount("1e6"), None);
    assert_eq!(parse_amount("0o8"), None);
    assert_eq!(parse_amount("0x1g"), None);
    assert_eq!(parse_amount("é"), None);
}

#[test]
fn amounts_fit_in_256_bits() {
    let largest = "115792089237316195423570985008687907853269984665640564039457584007913129639935";
    let too_large = "115792089237316195423570985008687907853269984665640564039457584007913129639936";
    assert_eq!(parse_amount(largest), Some(max()));
    assert_eq!(parse_amount(too_large), None);
    let hex_max = format!("0x{}", "f".repeat(64));
    assert_eq!(parse_amount(&hex_max), Some(max()));
    assert_eq!(parse_amount(&format!("{}0", hex_max)), None);
}

#[test]
fn addresses_are_read_with_or_without_prefix() {
    let text = "0xd8dA6BF26964aF9D7eEd9e03E53415D37aA96045";
    let vault = Address::parse(text).unwrap();
    assert_eq!(vault.bytes[0], 0xd8);
    assert_eq!(vault.bytes[19], 0x45);
    assert_eq!(Address::parse("d8da6bf26964af9d7eed9e03e53415d37aa96045"), Some(vault));
    assert_eq!(Address::parse("0XD8DA6BF26964AF9D7EED9E03E53415D37AA96045"), Some(vault));
}

#[test]
fn addresses_are_written_with_their_checksum() {
    let vault = Address::parse("0xd8da6bf26964af9d7eed9e03e53415d37aa96045").unwrap();
    assert_eq!(vault.to_checksum(), "0xd8dA6BF26964aF9D7eEd9e03E53415D37aA96045");
    assert_eq!(Address::parse(&vault.to_checksum()), Some(vault));
    let zero = Address { bytes: [0; 20] };
    assert_eq!(zero.to_checksum(), "0x0000000000000000000000000000000000000000");
}

#[test]
fn other_addresses_are_refused() {
    assert_eq!(Address::parse(""), None);
    assert_eq!(Address::parse("0x"), None);
    assert_eq!(Address::parse("0xd8da6bf26964af9d7eed9e03e53415d37aa9604"), None);
    assert_eq!(Address::parse("0xd8da6bf26964af9d7eed9e03e53415d37aa9604500"), None);
    assert_eq!(Address::parse("0xg8da6bf26964af9d7eed9e03e53415d37aa96045"), None);
    assert_eq!(Address::parse("0x8da6bf26964af9d7eed9e03e53415d37aa96045"), None);
    assert_eq!(Address::parse("0x6bf26964af9d7eed9e03e53415d37aa960451"), None);
}

#[test]
fn only_the_zero_address_is_zero() {
    assert!(Address { bytes: [0; 20] }.is_zero());
    for i in 0..20 {
        let mut bytes = [0u8; 20];
        bytes[i] = 1;
        assert!(!Address { bytes }.is_zero());
    }
}

#[test]
fn both_texts_tell_the_same_yield() {
    for n in [0u128, 1, 42_300_000_000_000_000, 40_599_999_999_999_999, 7_654_321_987_654_321_987] {
        let units: u128 = wad_to_string(u(n)).parse().unwrap();
        let hundredths = units / 1_000;
        let expected = format!("{}.{:02}%", hundredths / 100, hundredths % 100);
        assert_eq!(wad_to_percent_string(u(n)), expected);
    }
}

#[test]
fn different_hundredths_have_different_texts() {
    assert_ne!(
        wad_to_percent_string(u(40_500_000_000_000_000)),
        wad_to_percent_string(u(45_000_000_000_000_000))
    );
}
