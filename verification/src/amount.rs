//! Amounts of assets as users write them.
use vstd::prelude::*;

use crate::numeral::{decimal, law_decimal_is_read_back, numeral_value, u256_from_str};
use crate::u256::{u256_max, U256};

verus! {

/// Whether a character only groups the digits of an amount.
pub open spec fn is_separator(c: char) -> bool {
    c == ',' || c == '.' || c == ' ' || c == '_'
}

/// A text without its separators.
pub open spec fn without_separators(s: Seq<char>) -> Seq<char>
    decreases s.len(),
{
    if s.len() == 0 {
        s
    } else if is_separator(s.last()) {
        without_separators(s.drop_last())
    } else {
        without_separators(s.drop_last()).push(s.last())
    }
}

/// The number of asset units that a text denotes, separators aside.
pub open spec fn amount_value(s: Seq<char>) -> Option<nat> {
    numeral_value(without_separators(s))
}

/// `String::push` of std appends one character.
pub assume_specification[ String::push ](s: &mut String, c: char)
    ensures
        final(s)@ == old(s)@.push(c),
;

/// A text without its separators: commas, points, spaces and underscores.
pub fn strip_separators(s: &str) -> (r: String)
    ensures
        r@ == without_separators(s@),
{
    let mut stripped = String::new();
    for c in it: s.chars()
        invariant
            it.seq() == s@,
            stripped@ == without_separators(s@.take(it.index() as int)),
    {
        proof {
            let i = it.index() as int;
            assert(s@.take(i + 1).drop_last() =~= s@.take(i));
            assert(s@.take(i + 1).last() == c);
        }
        if !(c == ',' || c == '.' || c == ' ' || c == '_') {
            stripped.push(c);
        }
    }
    proof {
        assert(s@.take(s@.len() as int) =~= s@);
    }
    stripped
}

/// The number of asset units that a text denotes, if it denotes one.
pub fn parse_amount(s: &str) -> (r: Option<U256>)
    ensures
        r is Some <==> amount_value(s@) is Some,
        r matches Some(n) ==> amount_value(s@) == Some(n@),
{
    let stripped = strip_separators(s);
    match u256_from_str(stripped.as_str()) {
        Ok(n) => Some(n),
        Err(_) => None,
    }
}

proof fn lemma_strip_concat(s: Seq<char>, t: Seq<char>)
    ensures
        without_separators(s + t) == without_separators(s) + without_separators(t),
    decreases t.len(),
{
    if t.len() == 0 {
        assert(s + t =~= s);
    } else {
        lemma_strip_concat(s, t.drop_last());
        assert((s + t).drop_last() =~= s + t.drop_last());
        assert((s + t).last() == t.last());
        assert(without_separators(s + t) =~= without_separators(s) + without_separators(t));
    }
}

/// A separator can be written anywhere in an amount without changing it.
pub proof fn law_separators_do_not_count(s: Seq<char>, i: int, separator: char)
    requires
        0 <= i <= s.len(),
        is_separator(separator),
    ensures
        amount_value(s.insert(i, separator)) == amount_value(s),
{
    reveal_with_fuel(without_separators, 2);
    let before = s.take(i);
    let after = s.skip(i);
    assert(s.insert(i, separator) =~= before + (seq![separator] + after));
    assert(s =~= before + after);
    lemma_strip_concat(before, seq![separator] + after);
    lemma_strip_concat(seq![separator], after);
    lemma_strip_concat(before, after);
    assert(seq![separator].drop_last() =~= Seq::empty());
    assert(without_separators(seq![separator]) =~= Seq::empty());
    assert(Seq::<char>::empty() + without_separators(after) =~= without_separators(after));
}

/// Every number that fits in 256 bits can be written in decimal, with
/// separators at will.
pub proof fn law_grouped_decimal_is_read(s: Seq<char>, n: nat)
    requires
        n <= u256_max(),
        without_separators(s) == decimal(n),
    ensures
        amount_value(s) == Some(n),
{
    law_decimal_is_read_back(n);
}

/// Commas, points, spaces and underscores are left out of an amount, and every
/// other character is kept in its place.
pub proof fn law_only_separators_are_left_out(s: Seq<char>, c: char)
    ensures
        without_separators(seq![]) == Seq::<char>::empty(),
        is_separator(c) <==> seq![',', '.', ' ', '_'].contains(c),
        is_separator(c) ==> without_separators(s.push(c)) == without_separators(s),
        !is_separator(c) ==> without_separators(s.push(c)) == without_separators(s).push(c),
{
    let separators = seq![',', '.', ' ', '_'];
    assert(separators[0] == ',' && separators[1] == '.' && separators[2] == ' ' && separators[3]
        == '_');
    assert(s.push(c).drop_last() =~= s);
}

/// An amount that is written without separators is read as a plain numeral.
pub proof fn law_plain_amount_is_numeral(s: Seq<char>)
    requires
        forall|i: int|
            0 <= i < s.len() ==> !seq![',', '.', ' ', '_'].contains(#[trigger] s[i]),
    ensures
        amount_value(s) == numeral_value(s),
{
    lemma_nothing_to_leave_out(s);
}

/// A text without separators is kept as it is.
proof fn lemma_nothing_to_leave_out(s: Seq<char>)
    requires
        forall|i: int|
            0 <= i < s.len() ==> !seq![',', '.', ' ', '_'].contains(#[trigger] s[i]),
    ensures
        without_separators(s) == s,
    decreases s.len(),
{
    if s.len() > 0 {
        let rest = s.drop_last();
        assert forall|i: int| 0 <= i < rest.len() implies !seq![',', '.', ' ', '_'].contains(
            #[trigger] rest[i],
        ) by {
            assert(rest[i] == s[i]);
        }
        lemma_nothing_to_leave_out(rest);
        assert(s.last() == s[s.len() - 1]);
        law_only_separators_are_left_out(rest, s.last());
        assert(rest.push(s.last()) =~= s);
    }
}

} // verus!
