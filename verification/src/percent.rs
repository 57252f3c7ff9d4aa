//! Yields as text.
use vstd::prelude::*;
use vstd::string::StringExecFns;

use crate::apy::{net_apy, net_apy_wad, wad, WAD};
use crate::market::MarketReading;
use crate::numeral::{
    decimal, digit_char, lemma_decimal_digits, lemma_short_numerals, u256_to_string,
};
use crate::u256::{cap, u256_max, U256};

verus! {

/// The units of a percent that `wad_to_string` counts: five decimal digits.
pub const UNITS_PER_PERCENT: u128 = 100_000;

/// What one of these units is worth in a hundredfold WAD.
pub const UNIT: u128 = 10_000_000_000_000;

/// Two decimal digits.
pub open spec fn two_digits(d: nat) -> Seq<char> {
    seq![digit_char(d / 10), digit_char(d % 10)]
}

/// A number of hundredths, as a percentage with two decimal places.
pub open spec fn percent_text(hundredths: nat) -> Seq<char> {
    decimal(hundredths / 100) + seq!['.'] + two_digits(hundredths % 100) + seq!['%']
}

/// The hundredths of a percent in a WAD, rounded down.
pub open spec fn hundredths(wad_amount: nat) -> nat {
    cap(wad_amount * 100) * 100 / wad()
}

/// A vault's net APY, as a percentage with two decimal places.
pub open spec fn apy_text(readings: Seq<MarketReading>, fee: nat, deposit: nat) -> Seq<char> {
    percent_text(hundredths(net_apy(readings, fee, deposit)))
}

/// Whole percents and the part of the next one, in hundredths.
proof fn lemma_hundredths(n: nat)
    ensures
        n * 100 / wad() == n / wad() * 100 + (n % wad()) * 100 / wad(),
        (n % wad()) * 100 / wad() < 100,
{
    let d = wad();
    let q = n / d;
    let r = n % d;
    vstd::arithmetic::div_mod::lemma_fundamental_div_mod(n as int, d as int);
    assert(n * 100 == d * (q * 100) + r * 100) by (nonlinear_arith)
        requires
            n == d * q + r,
    ;
    vstd::arithmetic::div_mod::lemma_hoist_over_denominator(
        (r * 100) as int,
        (q * 100) as int,
        d,
    );
}

/// Convert a WAD fixed-point number into a human-readable percentage string.
/// The input is multiplied by 100 and truncated to two decimal places.
pub fn wad_to_percent_string(wad: U256) -> (r: String)
    ensures
        r@ == percent_text(hundredths(wad@)),
{
    let one = U256::from_u128(WAD);
    let hundred = U256::from_u128(100);
    // Multiply by 100 to convert to percent.
    let num = wad.saturating_mul(hundred);
    let whole = num.div_or_zero(one);
    let rem = num.rem_or_zero(one);
    // Extract two decimal digits.
    let dec = rem.saturating_mul(hundred).div_or_zero(one);
    proof {
        lemma_hundredths(num@);
        lemma_short_numerals(dec@);
    }
    let mut text = u256_to_string(whole);
    text.append(".");
    if dec.to_u128() < 10 {
        text.append("0");
    }
    text.append(u256_to_string(dec).as_str());
    text.append("%");
    proof {
        reveal_strlit(".");
        reveal_strlit("0");
        reveal_strlit("%");
        assert("."@ =~= seq!['.']);
        assert("%"@ =~= seq!['%']);
        assert("0"@ =~= seq!['0']);
        assert(text@ =~= percent_text(hundredths(wad@)));
    }
    text
}

/// Compute a vault's net APY (after fees) as a percentage string, were `deposit`
/// added to its assets: the supply APY of each market, weighted by the vault's
/// exposure, less the vault performance fee. The result is formatted as a
/// percentage with two decimal places (e.g. "4.23%").
pub fn net_apy_percent(markets: &Vec<MarketReading>, fee: U256, deposit: U256) -> (r: String)
    ensures
        r@ == apy_text(markets@, fee@, deposit@),
{
    wad_to_percent_string(net_apy_wad(markets, fee, deposit))
}

/// A WAD as a whole number of the units that five decimal digits of a percent
/// count, rounded down.
pub fn wad_to_string(wad: U256) -> (r: String)
    ensures
        r@ == decimal(cap(wad@ * 100) / (UNIT as nat)),
{
    let one = U256::from_u128(WAD);
    let num = wad.saturating_mul(U256::from_u128(100));
    let whole = num.div_or_zero(one);
    let rem = num.rem_or_zero(one);
    let whole = whole.wrapping_mul(U256::from_u128(UNITS_PER_PERCENT));
    let rem = rem.wrapping_div(U256::from_u128(UNIT));
    let val = whole.wrapping_add(rem);
    u256_to_string(val)
}

/// A percentage is the decimal numeral of its whole percents, a point, two
/// digits and a percent sign.
pub proof fn law_two_decimal_places(h: nat)
    ensures
        ({
            let s = percent_text(h);
            let n = s.len() as int;
            &&& n >= 5
            &&& s.take(n - 4) == decimal(h / 100)
            &&& s[n - 4] == '.'
            &&& '0' <= s[n - 3] <= '9'
            &&& '0' <= s[n - 2] <= '9'
            &&& s[n - 1] == '%'
        }),
{
    lemma_decimal_digits(h / 100);
    let s = percent_text(h);
    assert(s.take(s.len() - 4) =~= decimal(h / 100));
}

/// The text of a percentage tells its hundredths.
pub proof fn law_percent_text_is_faithful(h: nat, k: nat)
    requires
        percent_text(h) == percent_text(k),
    ensures
        h == k,
{
    let s = percent_text(h);
    let t = percent_text(k);
    let n = s.len() as int;
    lemma_decimal_digits(h / 100);
    lemma_decimal_digits(k / 100);
    assert(s.take(n - 4) =~= decimal(h / 100));
    assert(t.take(n - 4) =~= decimal(k / 100));
    assert(s[n - 3] == digit_char(h % 100 / 10) && s[n - 2] == digit_char(h % 100 % 10));
    assert(t[n - 3] == digit_char(k % 100 / 10) && t[n - 2] == digit_char(k % 100 % 10));
}

/// A yield is cut off after its hundredths, never rounded up, as long as its
/// hundredfold fits in 256 bits.
pub proof fn law_percent_is_truncated(amount: nat)
    requires
        amount * 100 <= u256_max(),
    ensures
        hundredths(amount) * wad() <= amount * 10_000 < (hundredths(amount) + 1) * wad(),
{
    vstd::arithmetic::div_mod::lemma_fundamental_div_mod(
        (amount * 100 * 100) as int,
        wad() as int,
    );
}

/// Both texts tell the same yield: the units that `wad_to_string` counts, cut
/// off after two decimal places, are the hundredths of the percentage.
pub proof fn law_texts_agree(amount: nat)
    ensures
        cap(amount * 100) / (UNIT as nat) / 1000 == hundredths(amount),
{
}

/// The two decimal places of a percentage are the tens and the units of the
/// hundredths beyond its whole percents.
pub proof fn law_decimal_places_are_hundredths(h: nat)
    ensures
        ({
            let s = percent_text(h);
            let n = s.len() as int;
            &&& h / 100 * 100 + (s[n - 3] as nat - 48) * 10 + (s[n - 2] as nat - 48) == h
            &&& 48 <= s[n - 3] as nat <= 57
            &&& 48 <= s[n - 2] as nat <= 57
        }),
{
    lemma_decimal_digits(h / 100);
    let s = percent_text(h);
    let n = s.len() as int;
    assert(s[n - 3] == digit_char(h % 100 / 10) && s[n - 2] == digit_char(h % 100 % 10));
}

/// A yield is cut off after its hundredths, of however many bits it is: its
/// hundredfold counts up to 256 bits.
pub proof fn law_any_percent_is_truncated(amount: nat)
    ensures
        hundredths(amount) * 1_000_000_000_000_000_000 <= cap(amount * 100) * 100 < (hundredths(
            amount,
        ) + 1) * 1_000_000_000_000_000_000,
{
}

/// The text of a vault's APY is that of the hundredths of a percent in its net
/// APY.
pub proof fn law_apy_text_tells_net_apy(
    readings: Seq<MarketReading>,
    fee: nat,
    deposit: nat,
    h: nat,
)
    requires
        h * 1_000_000_000_000_000_000 <= cap(net_apy(readings, fee, deposit) * 100) * 100 < (h + 1)
            * 1_000_000_000_000_000_000,
    ensures
        apy_text(readings, fee, deposit) == percent_text(h),
{
}

} // verus!
