use indexer_morpho::abi::{
    fee_call, morpho_call, read_address, read_bytes32, read_uint256, read_uint96,
    withdraw_queue_call, withdraw_queue_length_call,
};
use indexer_morpho::u256::U256;

#[test]
fn calls_start_with_the_selector() {
    assert_eq!(morpho_call(), vec![0x3a, 0xcb, 0x56, 0x24]);
    assert_eq!(fee_call(), vec![0xdd, 0xca, 0x3f, 0x43]);
    assert_eq!(withdraw_queue_length_call(), vec![0x33, 0xf9, 0x1e, 0xbb]);
}

#[test]
fn queue_calls_carry_the_index() {
    let mut input = vec![0x62, 0x51, 0x8d, 0xdf];
    input.extend([0u8; 30]);
    input.extend([0x01, 0x02]);
    assert_eq!(withdraw_queue_call(258), input);
}

fn word() -> Vec<u8> {
    (1..=32).collect()
}

#[test]
fn addresses_are_the_last_bytes_of_a_word() {
    let a = read_address(&word()).unwrap();
    assert_eq!(a.bytes.to_vec(), word()[12..].to_vec());
}

#[test]
fn uint96_is_the_last_bytes_of_a_word() {
    let n = read_uint96(&word()).unwrap();
    assert_eq!(n, U256::from_limbs([0x191a1b1c1d1e1f20, 0x15161718, 0, 0]));
}

#[test]
fn uint256_is_a_word() {
    let n = read_uint256(&word()).unwrap();
    assert_eq!(
        n.into_limbs(),
        [0x191a1b1c1d1e1f20, 0x1112131415161718, 0x090a0b0c0d0e0f10, 0x0102030405060708]
    );
}

#[test]
fn bytes32_is_a_word() {
    assert_eq!(read_bytes32(&word()).unwrap().bytes.to_vec(), word());
}

#[test]
fn what_follows_a_word_is_ignored() {
    let mut long = word();
    long.push(0xff);
    assert_eq!(read_uint256(&long), read_uint256(&word()));
    assert_eq!(read_uint96(&long), read_uint96(&word()));
    assert_eq!(read_address(&long), read_address(&word()));
    assert_eq!(read_bytes32(&long), read_bytes32(&word()));
}

#[test]
fn short_data_is_refused() {
    let short = &word()[..31];
    assert!(read_address(short).is_none());
    assert!(read_uint96(short).is_none());
    assert!(read_uint256(short).is_none());
    assert!(read_bytes32(short).is_none());
    assert!(read_uint256(&[]).is_none());
}

#[test]
fn numbers_fit_in_128_bits_or_not() {
    assert!(U256::from_limbs([u64::MAX, u64::MAX, 0, 0]).fits_u128());
    assert!(!U256::from_limbs([0, 0, 1, 0]).fits_u128());
    assert!(!U256::from_limbs([0, 0, 0, 1]).fits_u128());
}

#[test]
fn division_by_zero_is_zero() {
    let seven = U256::from_limbs([7, 0, 0, 0]);
    let two = U256::from_limbs([2, 0, 0, 0]);
    let zero = U256::from_limbs([0; 4]);
    assert_eq!(seven.div_or_zero(two).into_limbs(), [3, 0, 0, 0]);
    assert_eq!(seven.rem_or_zero(two).into_limbs(), [1, 0, 0, 0]);
    assert_eq!(seven.div_or_zero(zero), zero);
    assert_eq!(seven.rem_or_zero(zero), zero);
}

#[test]
fn indices_are_read_back() {
    for i in [0usize, 1, 255, 256, 65_537, usize::MAX] {
        let input = withdraw_queue_call(i);
        assert_eq!(input.len(), 36);
        assert_eq!(read_uint256(&input[4..]).unwrap().into_limbs(), [i as u64, 0, 0, 0]);
    }
}
