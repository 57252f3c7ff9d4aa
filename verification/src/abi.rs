//! Contract calls as bytes.
//!
//! The input of a call is the selector of its function, which is the head of
//! the hash of its signature, followed by the arguments as words of 32 bytes.
//! What a function returns comes back as words, too.
use vstd::prelude::*;
use vstd::utf8::encode_utf8;

use crate::address::Address;
use crate::keccak::{keccak256, keccak256_digest};
use crate::market::MarketId;
use crate::u256::{two_256, U256};

verus! {

/// The number that bytes denote, most significant byte first.
pub open spec fn be_value(bytes: Seq<u8>) -> nat
    decreases bytes.len(),
{
    if bytes.len() == 0 {
        0
    } else {
        be_value(bytes.drop_last()) * 256 + bytes.last() as nat
    }
}

/// The last `len` bytes of a number, most significant byte first.
pub open spec fn be_bytes(n: nat, len: nat) -> Seq<u8>
    decreases len,
{
    if len == 0 {
        seq![]
    } else {
        be_bytes(n / 256, (len - 1) as nat).push((n % 256) as u8)
    }
}

/// The selector of a function.
pub open spec fn selector(signature: Seq<char>) -> Seq<u8> {
    keccak256_digest(encode_utf8(signature)).take(4)
}

/// The input of `MORPHO()`.
pub open spec fn morpho_input() -> Seq<u8> {
    selector("MORPHO()"@)
}

/// The input of `fee()`.
pub open spec fn fee_input() -> Seq<u8> {
    selector("fee()"@)
}

/// The input of `withdrawQueueLength()`.
pub open spec fn withdraw_queue_length_input() -> Seq<u8> {
    selector("withdrawQueueLength()"@)
}

/// The input of `withdrawQueue(index)`.
pub open spec fn withdraw_queue_input(index: nat) -> Seq<u8> {
    selector("withdrawQueue(uint256)"@) + be_bytes(index, 32)
}

/// The address that a returned word holds, in its last 20 bytes.
pub open spec fn returned_address(data: Seq<u8>) -> Option<Seq<u8>> {
    if data.len() >= 32 {
        Some(data.subrange(12, 32))
    } else {
        None
    }
}

/// The number that a returned word holds in its last 12 bytes.
pub open spec fn returned_uint96(data: Seq<u8>) -> Option<nat> {
    if data.len() >= 32 {
        Some(be_value(data.subrange(20, 32)))
    } else {
        None
    }
}

/// The number that a returned word holds.
pub open spec fn returned_uint256(data: Seq<u8>) -> Option<nat> {
    if data.len() >= 32 {
        Some(be_value(data.subrange(0, 32)))
    } else {
        None
    }
}

/// The bytes that a returned word holds.
pub open spec fn returned_bytes32(data: Seq<u8>) -> Option<Seq<u8>> {
    if data.len() >= 32 {
        Some(data.subrange(0, 32))
    } else {
        None
    }
}

/// Why returned bytes are not read.
#[verifier::external_type_specification]
#[verifier::external_body]
pub struct ExSolError(alloy::sol_types::Error);

/// One `uint256` argument, as a word.
///
/// `SolType::abi_encode_sequence` of `alloy::sol_types`, for a single
/// `uint256`: the 32 bytes of the number, most significant byte first.
#[verifier::external_body]
pub(crate) fn encode_uint256(n: U256) -> (r: Vec<u8>)
    ensures
        r@ == be_bytes(n@, 32),
{
    let n = alloy::primitives::U256::from_limbs(n.into_limbs());
    <(alloy::sol_types::sol_data::Uint<256>,) as alloy::sol_types::SolType>::abi_encode_sequence(
        &(n,),
    )
}

/// A returned `address`.
///
/// `SolType::abi_decode_sequence` of `alloy::sol_types`, for a single
/// `address`: it takes the last 20 of the first 32 bytes, without a look at the
/// others or at what follows, and fails only where there are fewer than 32.
#[verifier::external_body]
pub(crate) fn decode_address(data: &[u8]) -> (r: Result<Address, alloy::sol_types::Error>)
    ensures
        r is Ok <==> returned_address(data@) is Some,
        r matches Ok(a) ==> returned_address(data@) == Some(a@),
{
    let (a,) =
        <(alloy::sol_types::sol_data::Address,) as alloy::sol_types::SolType>::abi_decode_sequence(
        data,
    )?;
    Ok(Address { bytes: a.into_array() })
}

/// A returned `uint96`.
///
/// `SolType::abi_decode_sequence` of `alloy::sol_types`, for a single `uint96`:
/// it takes the last 12 of the first 32 bytes, most significant byte first,
/// without a look at the others or at what follows, and fails only where there
/// are fewer than 32. The value fits in 256 bits.
#[verifier::external_body]
pub(crate) fn decode_uint96(data: &[u8]) -> (r: Result<U256, alloy::sol_types::Error>)
    ensures
        r is Ok <==> returned_uint96(data@) is Some,
        r matches Ok(n) ==> returned_uint96(data@) == Some(n@),
{
    let (n,) =
        <(alloy::sol_types::sol_data::Uint<96>,) as alloy::sol_types::SolType>::abi_decode_sequence(
        data,
    )?;
    Ok(U256::from_limbs(alloy::primitives::U256::from(n).into_limbs()))
}

/// A returned `uint256`.
///
/// `SolType::abi_decode_sequence` of `alloy::sol_types`, for a single
/// `uint256`: it takes the first 32 bytes, most significant byte first, without
/// a look at what follows, and fails only where there are fewer.
#[verifier::external_body]
pub(crate) fn decode_uint256(data: &[u8]) -> (r: Result<U256, alloy::sol_types::Error>)
    ensures
        r is Ok <==> returned_uint256(data@) is Some,
        r matches Ok(n) ==> returned_uint256(data@) == Some(n@),
{
    let (n,) =
        <(alloy::sol_types::sol_data::Uint<256>,) as alloy::sol_types::SolType>::abi_decode_sequence(
        data,
    )?;
    Ok(U256::from_limbs(n.into_limbs()))
}

/// A returned `bytes32`.
///
/// `SolType::abi_decode_sequence` of `alloy::sol_types`, for a single
/// `bytes32`: it takes the first 32 bytes, without a look at what follows, and
/// fails only where there are fewer.
#[verifier::external_body]
pub(crate) fn decode_bytes32(data: &[u8]) -> (r: Result<MarketId, alloy::sol_types::Error>)
    ensures
        r is Ok <==> returned_bytes32(data@) is Some,
        r matches Ok(id) ==> returned_bytes32(data@) == Some(id@),
{
    let (id,) =
        <(alloy::sol_types::sol_data::FixedBytes<32>,) as alloy::sol_types::SolType>::abi_decode_sequence(
        data,
    )?;
    Ok(MarketId { bytes: id.0 })
}

/// The selector of a function.
fn selector_bytes(signature: &str) -> (r: Vec<u8>)
    ensures
        r@ == selector(signature@),
{
    let digest = keccak256(signature.as_bytes());
    let mut head: Vec<u8> = Vec::with_capacity(4);
    for i in 0..4usize
        invariant
            head@ == digest@.take(i as int),
    {
        head.push(digest[i]);
        assert(digest@.take(i + 1) =~= digest@.take(i as int).push(digest[i as int]));
    }
    head
}

/// The input of `MORPHO()`, which returns the address of the Morpho contract.
pub fn morpho_call() -> (r: Vec<u8>)
    ensures
        r@ == morpho_input(),
{
    selector_bytes("MORPHO()")
}

/// The input of `fee()`, which returns the vault's performance fee.
pub fn fee_call() -> (r: Vec<u8>)
    ensures
        r@ == fee_input(),
{
    selector_bytes("fee()")
}

/// The input of `withdrawQueueLength()`, which returns the number of markets in
/// the vault's withdraw queue.
pub fn withdraw_queue_length_call() -> (r: Vec<u8>)
    ensures
        r@ == withdraw_queue_length_input(),
{
    selector_bytes("withdrawQueueLength()")
}

/// The input of `withdrawQueue(index)`, which returns the id of a market in the
/// vault's withdraw queue.
pub fn withdraw_queue_call(index: usize) -> (r: Vec<u8>)
    ensures
        r@ == withdraw_queue_input(index as nat),
{
    let mut input = selector_bytes("withdrawQueue(uint256)");
    let mut word = encode_uint256(U256::from_u128(index as u128));
    input.append(&mut word);
    input
}

/// The address that a call returned.
pub fn read_address(data: &[u8]) -> (r: Option<Address>)
    ensures
        r is Some <==> returned_address(data@) is Some,
        r matches Some(a) ==> returned_address(data@) == Some(a@),
{
    match decode_address(data) {
        Ok(a) => Some(a),
        Err(_) => None,
    }
}

/// The `uint96` that a call returned.
pub fn read_uint96(data: &[u8]) -> (r: Option<U256>)
    ensures
        r is Some <==> returned_uint96(data@) is Some,
        r matches Some(n) ==> returned_uint96(data@) == Some(n@),
{
    match decode_uint96(data) {
        Ok(n) => Some(n),
        Err(_) => None,
    }
}

/// The `uint256` that a call returned.
pub fn read_uint256(data: &[u8]) -> (r: Option<U256>)
    ensures
        r is Some <==> returned_uint256(data@) is Some,
        r matches Some(n) ==> returned_uint256(data@) == Some(n@),
{
    match decode_uint256(data) {
        Ok(n) => Some(n),
        Err(_) => None,
    }
}

/// The `bytes32` that a call returned.
pub fn read_bytes32(data: &[u8]) -> (r: Option<MarketId>)
    ensures
        r is Some <==> returned_bytes32(data@) is Some,
        r matches Some(id) ==> returned_bytes32(data@) == Some(id@),
{
    match decode_bytes32(data) {
        Ok(id) => Some(id),
        Err(_) => None,
    }
}

/// The power of 256 with the exponent `n`.
spec fn pow256(n: nat) -> nat
    decreases n,
{
    if n == 0 {
        1
    } else {
        256 * pow256((n - 1) as nat)
    }
}

proof fn lemma_be_value_of_bytes(n: nat, len: nat)
    requires
        n < pow256(len),
    ensures
        be_value(be_bytes(n, len)) == n,
        be_bytes(n, len).len() == len,
    decreases len,
{
    if len != 0 {
        assert(n / 256 < pow256((len - 1) as nat));
        lemma_be_value_of_bytes(n / 256, (len - 1) as nat);
        assert(be_bytes(n, len).drop_last() =~= be_bytes(n / 256, (len - 1) as nat));
    }
}

/// A number that was written as a word is read back from it.
pub proof fn law_uint256_is_read_back(n: nat)
    requires
        n < two_256(),
    ensures
        returned_uint256(be_bytes(n, 32)) == Some(n),
{
    reveal_with_fuel(pow256, 33);
    lemma_be_value_of_bytes(n, 32);
    assert(be_bytes(n, 32).subrange(0, 32) =~= be_bytes(n, 32));
}

/// Bytes that follow others shift the number of these by their length.
proof fn lemma_be_value_of_concat(a: Seq<u8>, b: Seq<u8>)
    ensures
        be_value(a + b) == be_value(a) * pow256(b.len()) + be_value(b),
        be_value(b) < pow256(b.len()),
    decreases b.len(),
{
    if b.len() == 0 {
        assert(a + b =~= a);
        assert(be_value(a) * 1 == be_value(a));
    } else {
        let c = b.drop_last();
        lemma_be_value_of_concat(a, c);
        assert((a + b).drop_last() =~= a + c);
        assert((a + b).last() == b.last());
        let (u, v, w) = (be_value(a), be_value(c), pow256(c.len()));
        assert((u * w + v) * 256 == u * (256 * w) + v * 256) by (nonlinear_arith);
        assert(pow256(b.len()) == 256 * w);
    }
}

/// A further byte shifts the number before it by one byte.
pub proof fn law_further_byte_shifts(bytes: Seq<u8>, b: u8)
    ensures
        be_value(seq![]) == 0,
        be_value(bytes.push(b)) == 256 * be_value(bytes) + b,
{
    assert(bytes.push(b).drop_last() =~= bytes);
}

/// A word is as long as it is said to be, and ends in the number's last byte,
/// after the bytes of what is left.
pub proof fn law_bytes_of_a_number(n: nat, len: nat)
    ensures
        be_bytes(n, len).len() == len,
        len > 0 ==> be_bytes(n, len).last() == n % 256,
        len > 0 ==> be_bytes(n, len).drop_last() == be_bytes(n / 256, (len - 1) as nat),
    decreases len,
{
    if len > 0 {
        law_bytes_of_a_number(n / 256, (len - 1) as nat);
        assert(be_bytes(n, len).drop_last() =~= be_bytes(n / 256, (len - 1) as nat));
    }
}

/// What is read of returned bytes: of fewer than 32 nothing; otherwise the
/// first 32 as they are or as a number, the last 20 of these as an address, and
/// the number without what exceeds 96 bits.
pub proof fn law_returned_word(data: Seq<u8>, i: int)
    ensures
        data.len() < 32 ==> returned_address(data) is None && returned_uint96(data) is None
            && returned_uint256(data) is None && returned_bytes32(data) is None,
        data.len() >= 32 ==> ({
            let address = returned_address(data);
            let word = returned_bytes32(data);
            let n = be_value(data.take(32));
            &&& address is Some
            &&& address.unwrap().len() == 20
            &&& 0 <= i < 20 ==> address.unwrap()[i] == data[12 + i]
            &&& word is Some
            &&& word.unwrap().len() == 32
            &&& 0 <= i < 32 ==> word.unwrap()[i] == data[i]
            &&& returned_uint256(data) == Some(n)
            &&& returned_uint96(data) == Some(n % 0x1_0000_0000_0000_0000_0000_0000)
        }),
{
    if data.len() >= 32 {
        let a = data.subrange(0, 20);
        let b = data.subrange(20, 32);
        assert(data.take(32) =~= a + b);
        lemma_be_value_of_concat(a, b);
        reveal_with_fuel(pow256, 13);
        assert(pow256(12) == 0x1_0000_0000_0000_0000_0000_0000);
        assert(data.take(32) =~= data.subrange(0, 32));
        vstd::arithmetic::div_mod::lemma_fundamental_div_mod_converse(
            be_value(a + b) as int,
            0x1_0000_0000_0000_0000_0000_0000,
            be_value(a) as int,
            be_value(b) as int,
        );
    }
}

/// The selector of a function is made of the first four bytes of the hash of
/// its signature.
pub proof fn law_selector_is_head_of_hash(signature: Seq<char>, i: int)
    requires
        keccak256_digest(encode_utf8(signature)).len() == 32,
        0 <= i < 4,
    ensures
        selector(signature).len() == 4,
        selector(signature)[i] == keccak256_digest(encode_utf8(signature))[i],
{
}

/// The input that asks for an entry of the withdraw queue is the function's
/// selector and one word, from which the index is read back.
pub proof fn law_queue_index_is_read_back(index: nat)
    requires
        index < two_256(),
    ensures
        ({
            let input = withdraw_queue_input(index);
            let head = selector("withdrawQueue(uint256)"@);
            &&& input.len() == head.len() + 32
            &&& input.take(head.len() as int) == head
            &&& returned_uint256(input.skip(head.len() as int)) == Some(index)
        }),
{
    let input = withdraw_queue_input(index);
    let head = selector("withdrawQueue(uint256)"@);
    law_bytes_of_a_number(index, 32);
    law_uint256_is_read_back(index);
    assert(input.take(head.len() as int) =~= head);
    assert(input.skip(head.len() as int) =~= be_bytes(index, 32));
}

} // verus!
