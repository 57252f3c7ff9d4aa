//! Numbers as text.
use vstd::prelude::*;

use crate::u256::{u256_max, U256};

verus! {

/// The decimal digit `d`.
pub open spec fn digit_char(d: nat) -> char {
    ('0' as nat + d) as char
}

/// The decimal numeral of `n`, without leading zeros.
pub open spec fn decimal(n: nat) -> Seq<char>
    decreases n,
{
    if n < 10 {
        seq![digit_char(n)]
    } else {
        decimal(n / 10).push(digit_char(n % 10))
    }
}

/// What the character `c` counts as a digit to the base `radix`: `0` to `9`,
/// then the letters of either case.
pub open spec fn digit_value(c: char, radix: nat) -> Option<nat> {
    let d = if '0' <= c && c <= '9' {
        (c as nat - '0' as nat) as nat
    } else if 'a' <= c && c <= 'z' {
        (c as nat - 'a' as nat + 10) as nat
    } else if 'A' <= c && c <= 'Z' {
        (c as nat - 'A' as nat + 10) as nat
    } else {
        radix
    };
    if d < radix {
        Some(d)
    } else {
        None
    }
}

/// The number that a run of digits denotes to the base `radix`. Underscores
/// count for nothing; any other character makes the run meaningless.
pub open spec fn digits_value(s: Seq<char>, radix: nat) -> Option<nat>
    decreases s.len(),
{
    if s.len() == 0 {
        Some(0)
    } else {
        match digits_value(s.drop_last(), radix) {
            None => None,
            Some(n) => if s.last() == '_' {
                Some(n)
            } else {
                match digit_value(s.last(), radix) {
                    None => None,
                    Some(d) => Some(n * radix + d),
                }
            },
        }
    }
}

/// The base that the first two characters of a numeral announce.
pub open spec fn announced_radix(s: Seq<char>) -> Option<nat> {
    if s.len() < 2 || s[0] != '0' {
        None
    } else if s[1] == 'x' || s[1] == 'X' {
        Some(16)
    } else if s[1] == 'o' || s[1] == 'O' {
        Some(8)
    } else if s[1] == 'b' || s[1] == 'B' {
        Some(2)
    } else {
        None
    }
}

/// The number that a numeral denotes: digits to the base that it announces, or
/// decimal digits. None where it is no numeral, or does not fit in 256 bits.
pub open spec fn numeral_value(s: Seq<char>) -> Option<nat> {
    let value = match announced_radix(s) {
        Some(radix) => digits_value(s.skip(2), radix),
        None => digits_value(s, 10),
    };
    match value {
        Some(n) if n <= u256_max() => Some(n),
        _ => None,
    }
}

/// Why a text is not read as a number.
#[verifier::external_type_specification]
#[verifier::external_body]
pub struct ExParseError(alloy::primitives::ruint::ParseError);

/// The number that a numeral denotes.
///
/// `U256::from_str` of `alloy::primitives`: the prefixes `0x`, `0o` and `0b`,
/// with a letter of either case, announce a base and every other text is read
/// as decimal; underscores are skipped, so that a text without digits is zero;
/// it fails on any other character and on a number that does not fit.
#[verifier::external_body]
pub(crate) fn u256_from_str(s: &str) -> (r: Result<U256, alloy::primitives::ruint::ParseError>)
    ensures
        r is Ok <==> numeral_value(s@) is Some,
        r matches Ok(n) ==> numeral_value(s@) == Some(n@),
{
    let value: alloy::primitives::U256 = s.parse()?;
    Ok(U256::from_limbs(value.into_limbs()))
}

/// The decimal numeral of a number.
///
/// `U256::to_string` of `alloy::primitives`: decimal digits without leading
/// zeros, sign or separators.
#[verifier::external_body]
pub(crate) fn u256_to_string(n: U256) -> (r: String)
    ensures
        r@ == decimal(n@),
{
    alloy::primitives::U256::from_limbs(n.into_limbs()).to_string()
}

/// The digits of a decimal numeral, one by one.
pub(crate) proof fn lemma_decimal_digits(n: nat)
    ensures
        decimal(n).len() > 0,
        forall|i: int| 0 <= i < decimal(n).len() ==> '0' <= #[trigger] decimal(n)[i] <= '9',
        digits_value(decimal(n), 10) == Some(n),
    decreases n,
{
    reveal_with_fuel(digits_value, 2);
    if n < 10 {
        assert(decimal(n).drop_last() =~= Seq::empty());
    } else {
        lemma_decimal_digits(n / 10);
        assert(decimal(n).drop_last() =~= decimal(n / 10));
    }
}

/// The decimal numeral of every number that fits in 256 bits is read as that
/// number.
pub proof fn law_decimal_is_read_back(n: nat)
    requires
        n <= u256_max(),
    ensures
        numeral_value(decimal(n)) == Some(n),
{
    lemma_decimal_digits(n);
    let s = decimal(n);
    if s.len() >= 2 {
        assert('0' <= s[1] <= '9');
    }
}

/// The decimal numerals of one and of two digits.
pub(crate) proof fn lemma_short_numerals(n: nat)
    ensures
        n < 10 ==> decimal(n) == seq![digit_char(n)],
        10 <= n < 100 ==> decimal(n) == seq![digit_char(n / 10), digit_char(n % 10)],
{
    reveal_with_fuel(decimal, 2);
    if 10 <= n < 100 {
        assert(decimal(n) =~= seq![digit_char(n / 10), digit_char(n % 10)]);
    }
}

/// A decimal numeral ends in the digit of the units, after the numeral of the
/// tens if there are any, and starts with no zero but that of zero itself.
pub proof fn law_decimal_ends_in_units(n: nat)
    ensures
        decimal(n).len() > 0,
        decimal(n).last() as nat == 48 + n % 10,
        n < 10 ==> decimal(n).len() == 1,
        n >= 10 ==> decimal(n).drop_last() == decimal(n / 10),
        n > 0 ==> decimal(n)[0] != '0',
    decreases n,
{
    if n >= 10 {
        law_decimal_ends_in_units(n / 10);
        assert(decimal(n).drop_last() =~= decimal(n / 10));
    }
}

/// The characters that count as digits: `0` to `9`, and then the letters of the
/// alphabet of either case, as far as the base goes.
pub proof fn law_digits_of_a_base(c: char, radix: nat, d: nat)
    ensures
        digit_value(c, radix) == Some(d) <==> d < radix && ({
            ||| d < 10 && c as nat == 48 + d
            ||| 10 <= d < 36 && c as nat == 55 + d
            ||| 10 <= d < 36 && c as nat == 87 + d
        }),
{
}

/// A further digit shifts the number before it by one place. An underscore does
/// not, and any other character leaves no number, as does one further on.
pub proof fn law_further_digit_shifts(s: Seq<char>, c: char, radix: nat, d: nat)
    ensures
        digits_value(seq![], radix) == Some(0nat),
        digits_value(s, radix) is None ==> digits_value(s.push(c), radix) is None,
        digits_value(s.push('_'), radix) == digits_value(s, radix),
        c != '_' && digit_value(c, radix) is None ==> digits_value(s.push(c), radix) is None,
        c != '_' && digit_value(c, radix) == Some(d) && digits_value(s, radix) is Some
            ==> digits_value(s.push(c), radix) == Some(
            radix * digits_value(s, radix).unwrap() + d,
        ),
{
    assert(s.push(c).drop_last() =~= s);
    assert(s.push('_').drop_last() =~= s);
    if digits_value(s, radix) is Some {
        vstd::arithmetic::mul::lemma_mul_is_commutative(
            radix as int,
            digits_value(s, radix).unwrap() as int,
        );
    }
}

/// The prefixes `0x`, `0o` and `0b`, with a letter of either case, announce
/// hexadecimal, octal and binary digits.
pub proof fn law_prefix_announces_base(letter: char, digits: Seq<char>, radix: nat)
    requires
        ({
            ||| radix == 16 && (letter == 'x' || letter == 'X')
            ||| radix == 8 && (letter == 'o' || letter == 'O')
            ||| radix == 2 && (letter == 'b' || letter == 'B')
        }),
    ensures
        ({
            let read = numeral_value(seq!['0', letter] + digits);
            let n = digits_value(digits, radix);
            &&& n is None ==> read is None
            &&& n is Some && n.unwrap() <= u256_max() ==> read == n
            &&& n is Some && n.unwrap() > u256_max() ==> read is None
        }),
{
    let s = seq!['0', letter] + digits;
    assert(s.skip(2) =~= digits);
}

/// Every text without such a prefix is read as decimal digits.
pub proof fn law_no_prefix_is_decimal(s: Seq<char>)
    requires
        s.len() >= 2 && s[0] == '0' ==> !seq!['x', 'X', 'o', 'O', 'b', 'B'].contains(s[1]),
    ensures
        ({
            let read = numeral_value(s);
            let n = digits_value(s, 10);
            &&& n is None ==> read is None
            &&& n is Some && n.unwrap() <= u256_max() ==> read == n
            &&& n is Some && n.unwrap() > u256_max() ==> read is None
        }),
{
    let letters = seq!['x', 'X', 'o', 'O', 'b', 'B'];
    if s.len() >= 2 && s[0] == '0' {
        assert(letters[0] == 'x' && letters[1] == 'X' && letters[2] == 'o' && letters[3] == 'O'
            && letters[4] == 'b' && letters[5] == 'B');
    }
}

} // verus!
