//! What holds of numbers as text, and of text joined.

use vstd::arithmetic::power::{lemma_pow0, lemma_pow1, lemma_pow_adds, pow};
use vstd::prelude::*;

use crate::text::{decimal, digits_value, joined, parsed_u64, signed_decimal, string_views};

verus! {

/// Whether the text is made of decimal digits alone.
pub open spec fn all_digits(s: Seq<char>) -> bool {
    forall|i: int| 0 <= i < s.len() ==> '0' <= #[trigger] s[i] <= '9'
}

/// The number that decimal digits stand for, each by its place.
pub open spec fn place_value(s: Seq<char>) -> int
    decreases s.len(),
{
    if s.len() == 0 {
        0
    } else {
        (s[0] as int - '0' as int) * pow(10, (s.len() - 1) as nat) + place_value(s.drop_first())
    }
}

proof fn lemma_place_value_push(s: Seq<char>, c: char)
    ensures
        place_value(s.push(c)) == place_value(s) * 10 + (c as int - '0' as int),
    decreases s.len(),
{
    let more = s.push(c);
    if s.len() == 0 {
        assert(more.drop_first() =~= Seq::empty());
        lemma_pow0(10);
        assert(place_value(more) == (c as int - '0' as int) * pow(10, 0) + place_value(
            more.drop_first(),
        ));
        assert((c as int - '0' as int) * 1 == c as int - '0' as int);
    } else {
        let rest = s.drop_first();
        lemma_place_value_push(rest, c);
        assert(more.drop_first() =~= rest.push(c));
        lemma_pow1(10);
        lemma_pow_adds(10, (s.len() - 1) as nat, 1);
        let d = s[0] as int - '0' as int;
        let p = pow(10, (s.len() - 1) as nat);
        assert(d * (p * 10) == (d * p) * 10) by (nonlinear_arith);
        assert((d * p + place_value(rest)) * 10 == (d * p) * 10 + place_value(rest) * 10);
    }
}

proof fn lemma_digits_value_is_place_value(s: Seq<char>)
    ensures
        digits_value(s) == if all_digits(s) {
            Some(place_value(s) as nat)
        } else {
            None::<nat>
        },
        all_digits(s) ==> place_value(s) >= 0,
    decreases s.len(),
{
    if s.len() > 0 {
        let before = s.drop_last();
        lemma_digits_value_is_place_value(before);
        lemma_place_value_push(before, s.last());
        assert(before.push(s.last()) =~= s);
        if all_digits(s) {
            assert forall|i: int| 0 <= i < before.len() implies '0' <= #[trigger] before[i]
                <= '9' by {
                assert('0' <= s[i] <= '9');
            }
            assert('0' <= s[s.len() - 1] <= '9');
        } else if all_digits(before) {
            assert(!('0' <= s.last() <= '9')) by {
                if '0' <= s.last() <= '9' {
                    assert forall|i: int| 0 <= i < s.len() implies '0' <= #[trigger] s[i] <= '9' by {
                        if i < before.len() {
                            assert(s[i] == before[i]);
                        }
                    }
                }
            }
        }
    }
}

/// A number is written with decimal digits alone, of that number's value, and
/// without leading zeros.
pub proof fn law_decimal_has_value(n: nat)
    ensures
        decimal(n).len() > 0,
        all_digits(decimal(n)),
        place_value(decimal(n)) == n,
        n > 0 ==> decimal(n)[0] != '0',
        n == 0 ==> decimal(n) == seq!['0'],
    decreases n,
{
    if n < 10 {
        let s = decimal(n);
        assert(Seq::<char>::empty().push(s[0]) =~= s);
        lemma_place_value_push(Seq::empty(), s[0]);
    } else {
        law_decimal_has_value(n / 10);
        let before = decimal(n / 10);
        lemma_place_value_push(before, decimal(n).last());
        assert(decimal(n).drop_last() =~= before);
        assert(before.push(decimal(n).last()) =~= decimal(n));
        assert forall|i: int| 0 <= i < decimal(n).len() implies '0' <= #[trigger] decimal(n)[i]
            <= '9' by {
            if i < before.len() {
                assert(decimal(n)[i] == before[i]);
            }
        }
        assert(decimal(n)[0] == before[0]);
    }
}

/// A negative number is written as a minus sign and its magnitude, any other as it
/// is.
pub proof fn law_signed_decimal_has_value(n: int)
    ensures
        n < 0 ==> {
            let s = signed_decimal(n);
            &&& s.len() > 1
            &&& s[0] == '-'
            &&& all_digits(s.drop_first())
            &&& place_value(s.drop_first()) == -n
            &&& s[1] != '0'
        },
        n >= 0 ==> {
            let s = signed_decimal(n);
            &&& s.len() > 0
            &&& all_digits(s)
            &&& place_value(s) == n
            &&& n > 0 ==> s[0] != '0'
            &&& n == 0 ==> s == seq!['0']
        },
{
    if n < 0 {
        law_decimal_has_value((-n) as nat);
        assert(signed_decimal(n).drop_first() =~= decimal((-n) as nat));
    } else {
        law_decimal_has_value(n as nat);
    }
}

/// Text is read as a number just when it is a row of decimal digits, at least one,
/// with or without a plus sign before it, whose value is a 64-bit integer; and it
/// is read as that value.
pub proof fn law_parsed_number_is_the_value_of_its_digits(s: Seq<char>)
    ensures
        ({
            let digits = if s.len() > 0 && s[0] == '+' {
                s.drop_first()
            } else {
                s
            };
            match parsed_u64(s) {
                Some(v) => digits.len() > 0 && all_digits(digits) && place_value(digits) == v,
                None => digits.len() == 0 || !all_digits(digits) || place_value(digits)
                    > 0xffff_ffff_ffff_ffff,
            }
        }),
{
    let digits = if s.len() > 0 && s[0] == '+' {
        s.drop_first()
    } else {
        s
    };
    assert(s.len() > 0 ==> s.skip(1) =~= s.drop_first());
    lemma_digits_value_is_place_value(digits);
}

/// Joining some texts and then others is joining them all: with one separator
/// between any two, and none before the first or after the last.
pub proof fn law_joined_piecewise(a: Seq<Seq<char>>, b: Seq<Seq<char>>, separator: Seq<char>)
    ensures
        joined(Seq::empty(), separator) == Seq::<char>::empty(),
        forall|text: Seq<char>| #[trigger] joined(seq![text], separator) == text,
        a.len() > 0 && b.len() > 0 ==> joined(a + b, separator) == joined(a, separator) + separator
            + joined(b, separator),
    decreases b.len(),
{
    if a.len() > 0 && b.len() > 0 {
        let all = a + b;
        assert(all.drop_last() =~= a + b.drop_last());
        if b.len() == 1 {
            assert(all.drop_last() =~= a);
        } else {
            law_joined_piecewise(a, b.drop_last(), separator);
        }
        assert(joined(all, separator) =~= joined(a, separator) + separator + joined(b, separator));
    }
}

/// Strings are taken one by one for their texts.
pub proof fn law_string_views(strings: Seq<String>)
    ensures
        string_views(strings).len() == strings.len(),
        forall|i: int| 0 <= i < strings.len() ==> #[trigger] string_views(strings)[i] == strings[i]@,
{
}

} // verus!
