//! Account addresses and their text.
use vstd::prelude::*;

use crate::keccak::keccak256_digest;
use crate::numeral::digit_value;

verus! {

/// The address of an account or a contract.
#[derive(Clone, Copy, Debug, PartialEq, Eq)]
pub struct Address {
    pub bytes: [u8; 20],
}

impl View for Address {
    type V = Seq<u8>;

    open spec fn view(&self) -> Seq<u8> {
        self.bytes@
    }
}

/// The hexadecimal digits of an address text, without the prefix `0x` if it has
/// one.
pub open spec fn hex_digits(s: Seq<char>) -> Seq<char> {
    if s.len() >= 2 && s[0] == '0' && (s[1] == 'x' || s[1] == 'X') {
        s.skip(2)
    } else {
        s
    }
}

/// What the character `c` counts as a hexadecimal digit of either case.
pub open spec fn hex_value(c: char) -> nat {
    digit_value(c, 16).unwrap()
}

/// The address that a text denotes: twice as many hexadecimal digits as an
/// address has bytes, after an optional prefix.
pub open spec fn address_value(s: Seq<char>) -> Option<Seq<u8>> {
    let t = hex_digits(s);
    if t.len() == 40 && (forall|i: int|
        0 <= i < t.len() ==> digit_value(#[trigger] t[i], 16) is Some) {
        Some(Seq::new(20, |i: int| (16 * hex_value(t[2 * i]) + hex_value(t[2 * i + 1])) as u8))
    } else {
        None
    }
}

/// The `i`th half byte, the upper half of each byte first.
pub open spec fn nibble(bytes: Seq<u8>, i: int) -> nat {
    if i % 2 == 0 {
        bytes[i / 2] as nat / 16
    } else {
        bytes[i / 2] as nat % 16
    }
}

/// The hexadecimal digit `d`.
pub open spec fn hex_char(d: nat, upper: bool) -> char {
    if d < 10 {
        ('0' as nat + d) as char
    } else if upper {
        ('A' as nat + d - 10) as char
    } else {
        ('a' as nat + d - 10) as char
    }
}

/// The lower case hexadecimal digits of an address, as ASCII bytes.
pub open spec fn lower_hex(bytes: Seq<u8>) -> Seq<u8> {
    Seq::new(40, |i: int| hex_char(nibble(bytes, i), false) as u8)
}

/// The text of an address with its checksum: a letter is in upper case where
/// the half byte of the digest at its place is eight or more. The digest is
/// that of the text without checksum and prefix.
pub open spec fn checksum_text(bytes: Seq<u8>) -> Seq<char> {
    let digest = keccak256_digest(lower_hex(bytes));
    seq!['0', 'x'] + Seq::new(
        40,
        |i: int| hex_char(nibble(bytes, i), nibble(digest, i) >= 8),
    )
}

/// The zero address.
pub open spec fn zero_address() -> Seq<u8> {
    Seq::new(20, |i: int| 0u8)
}

/// Why a text is not read as an address.
#[verifier::external_type_specification]
#[verifier::external_body]
pub struct ExFromHexError(alloy::primitives::hex::FromHexError);

/// The address that a text denotes.
///
/// `Address::from_str` of `alloy::primitives`: forty hexadecimal digits of
/// either case, with or without `0x` or `0X` before them; the checksum that the
/// case may carry is not looked at.
#[verifier::external_body]
pub(crate) fn address_from_str(s: &str) -> (r: Result<
    Address,
    alloy::primitives::hex::FromHexError,
>)
    ensures
        r is Ok <==> address_value(s@) is Some,
        r matches Ok(a) ==> address_value(s@) == Some(a@),
{
    let address: alloy::primitives::Address = s.parse()?;
    Ok(Address { bytes: address.into_array() })
}

/// The text of an address with its checksum.
///
/// `Address::to_string` of `alloy::primitives`, which writes the checksum of
/// EIP-55: it hashes the forty lower case digits with Keccak-256.
#[verifier::external_body]
pub(crate) fn address_to_string(a: &Address) -> (r: String)
    ensures
        r@ == checksum_text(a@),
{
    alloy::primitives::Address::new(a.bytes).to_string()
}

impl Address {
    /// The address that a text denotes, if it denotes one.
    pub fn parse(s: &str) -> (r: Option<Address>)
        ensures
            r is Some <==> address_value(s@) is Some,
            r matches Some(a) ==> address_value(s@) == Some(a@),
    {
        match address_from_str(s) {
            Ok(a) => Some(a),
            Err(_) => None,
        }
    }

    /// The text of the address with its checksum.
    pub fn to_checksum(&self) -> (r: String)
        ensures
            r@ == checksum_text(self@),
    {
        address_to_string(self)
    }

    /// Whether this is the zero address.
    pub fn is_zero(&self) -> (r: bool)
        ensures
            r == (self@ == zero_address()),
    {
        for i in 0..20usize
            invariant
                forall|j: int| 0 <= j < i ==> self@[j] == 0,
        {
            if self.bytes[i] != 0 {
                assert(self@[i as int] != zero_address()[i as int]);
                return false;
            }
        }
        assert(self@ =~= zero_address());
        true
    }
}

/// A hexadecimal digit is read as the number that it was written for.
proof fn lemma_hex_char(d: nat, upper: bool)
    requires
        d < 16,
    ensures
        digit_value(hex_char(d, upper), 16) == Some(d),
{
}

/// The text of an address is read back as that address.
pub proof fn law_checksum_is_read_back(bytes: Seq<u8>)
    requires
        bytes.len() == 20,
    ensures
        address_value(checksum_text(bytes)) == Some(bytes),
{
    let digest = keccak256_digest(lower_hex(bytes));
    let s = checksum_text(bytes);
    let t = hex_digits(s);
    assert forall|i: int| 0 <= i < 40 implies digit_value(#[trigger] t[i], 16) == Some(
        nibble(bytes, i),
    ) by {
        assert(t[i] == s[i + 2]);
        lemma_hex_char(nibble(bytes, i), nibble(digest, i) >= 8);
    }
    let read = address_value(s).unwrap();
    assert forall|i: int| 0 <= i < 20 implies read[i] == bytes[i] by {
        assert(digit_value(t[2 * i], 16) == Some(nibble(bytes, 2 * i)));
        assert(digit_value(t[2 * i + 1], 16) == Some(nibble(bytes, 2 * i + 1)));
        assert((2 * i) / 2 == i && (2 * i + 1) / 2 == i && (2 * i) % 2 == 0 && (2 * i + 1) % 2 == 1);
    }
    assert(read =~= bytes);
}

/// Forty hexadecimal digits of either case are read as the address whose half
/// bytes they are, with or without the prefix `0x` or `0X`.
pub proof fn law_hex_text_is_read(s: Seq<char>, digits: Seq<char>, bytes: Seq<u8>)
    requires
        bytes.len() == 20,
        digits.len() == 40,
        s == digits || s == seq!['0', 'x'] + digits || s == seq!['0', 'X'] + digits,
        forall|i: int|
            0 <= i < 40 ==> ({
                let d = if i % 2 == 0 {
                    bytes[i / 2] as nat / 16
                } else {
                    bytes[i / 2] as nat % 16
                };
                let c = (#[trigger] digits[i]) as int;
                ||| d < 10 && c == 48 + d
                ||| d >= 10 && c == 55 + d
                ||| d >= 10 && c == 87 + d
            }),
    ensures
        address_value(s) == Some(bytes),
{
    assert forall|i: int| 0 <= i < 40 implies digit_value(#[trigger] digits[i], 16) == Some(
        nibble(bytes, i),
    ) by {
    }
    if s == digits {
        assert(digit_value(digits[1], 16) is Some);
    }
    assert(hex_digits(s) =~= digits);
    let read = address_value(s).unwrap();
    assert forall|i: int| 0 <= i < 20 implies read[i] == bytes[i] by {
        assert(digit_value(digits[2 * i], 16) == Some(nibble(bytes, 2 * i)));
        assert(digit_value(digits[2 * i + 1], 16) == Some(nibble(bytes, 2 * i + 1)));
        assert((2 * i) / 2 == i && (2 * i + 1) / 2 == i && (2 * i) % 2 == 0 && (2 * i + 1) % 2 == 1);
    }
    assert(read =~= bytes);
}

/// A text of another length is no address, nor is one with another prefix, nor
/// one with a character among its last forty that is no hexadecimal digit.
pub proof fn law_other_text_is_no_address(s: Seq<char>, i: int)
    requires
        ({
            ||| s.len() != 40 && s.len() != 42
            ||| s.len() == 42 && !(s[0] == '0' && (s[1] == 'x' || s[1] == 'X'))
            ||| s.len() >= 40 && s.len() - 40 <= i < s.len() && !('0' <= s[i] <= '9' || 'a' <= s[i]
                <= 'f' || 'A' <= s[i] <= 'F')
        }),
    ensures
        address_value(s) is None,
{
    let t = hex_digits(s);
    if t.len() == 40 && s.len() - 40 <= i < s.len() {
        assert(t[i - (s.len() - 40)] == s[i]);
    }
}

/// The text of an address writes its half bytes in order, after `0x`. A letter
/// is in upper case where the half byte of the digest at its place is eight or
/// more, for the digest of the same digits in lower case.
pub proof fn law_checksum_is_in_the_case(bytes: Seq<u8>, lower: Seq<u8>, i: int)
    requires
        bytes.len() == 20,
        lower.len() == 40,
        forall|j: int|
            0 <= j < 40 ==> ({
                let d = if j % 2 == 0 {
                    bytes[j / 2] as nat / 16
                } else {
                    bytes[j / 2] as nat % 16
                };
                (#[trigger] lower[j]) as nat == if d < 10 {
                    48 + d
                } else {
                    87 + d
                }
            }),
        0 <= i < 40,
    ensures
        ({
            let s = checksum_text(bytes);
            let digest = keccak256_digest(lower);
            let high = if i % 2 == 0 {
                digest[i / 2] >= 128
            } else {
                digest[i / 2] % 16 >= 8
            };
            &&& s.len() == 42
            &&& s[0] == '0'
            &&& s[1] == 'x'
            &&& lower[i] <= 57 || !high ==> s[i + 2] as nat == lower[i]
            &&& lower[i] > 57 && high ==> s[i + 2] as nat + 32 == lower[i]
        }),
{
    assert(lower =~= lower_hex(bytes)) by {
        assert forall|j: int| 0 <= j < 40 implies lower[j] == #[trigger] lower_hex(bytes)[j] by {
            assert(lower[j] as nat == hex_char(nibble(bytes, j), false) as nat);
        }
    }
    let digest = keccak256_digest(lower);
    assert(checksum_text(bytes)[i + 2] == hex_char(nibble(bytes, i), nibble(digest, i) >= 8));
}

/// The zero address is that of twenty zero bytes.
pub proof fn law_zero_address(bytes: Seq<u8>)
    ensures
        bytes == zero_address() <==> bytes.len() == 20 && forall|i: int|
            0 <= i < 20 ==> (#[trigger] bytes[i]) == 0,
{
    if bytes.len() == 20 && (forall|i: int| 0 <= i < 20 ==> (#[trigger] bytes[i]) == 0) {
        assert(bytes =~= zero_address());
    }
}

} // verus!
