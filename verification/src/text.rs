//! Decimal integers in text.
use vstd::prelude::*;

verus! {

/// A decimal digit.
pub open spec fn is_digit(c: char) -> bool {
    '0' <= c && c <= '9'
}

/// The value of a decimal digit.
pub open spec fn digit_value(c: char) -> nat {
    (c as nat - '0' as nat) as nat
}

/// The integer that decimal digits spell.
pub open spec fn digits_value(digits: Seq<char>) -> nat
    decreases digits.len(),
{
    if digits.len() == 0 {
        0
    } else {
        digits_value(digits.drop_last()) * 10 + digit_value(digits.last())
    }
}

/// Whether all characters are decimal digits.
pub open spec fn all_digits(text: Seq<char>) -> bool {
    forall|i: int| 0 <= i < text.len() ==> is_digit(#[trigger] text[i])
}

/// The digits of an unsigned integer: the text without a leading plus sign.
pub open spec fn unsigned_digits(text: Seq<char>) -> Seq<char> {
    if text.len() > 0 && text[0] == '+' {
        text.skip(1)
    } else {
        text
    }
}

/// The integer up to a bound that a text spells: decimal digits, at least one, behind an
/// optional plus sign.
pub open spec fn unsigned_value(text: Seq<char>, bound: nat) -> Option<nat> {
    let digits = unsigned_digits(text);
    if digits.len() > 0 && all_digits(digits) && digits_value(digits) <= bound {
        Some(digits_value(digits))
    } else {
        None
    }
}

/// How a text is read as it grows. No text spells an integer that is empty or ends in anything but
/// a decimal digit. A digit alone, or behind a plus sign, spells its value; behind a text that
/// spells an integer it spells ten times that integer and its value, where the bound allows; and
/// behind any other text nothing.
pub proof fn law_text_is_read_digit_by_digit(text: Seq<char>, c: char, bound: nat)
    ensures
        unsigned_value(Seq::empty(), bound) is None,
        !('0' <= c && c <= '9') ==> unsigned_value(text.push(c), bound) is None,
        '0' <= c && c <= '9' ==> {
            let digit = (c as nat - '0' as nat) as nat;
            let before = unsigned_value(text, bound);
            let first = text.len() == 0 || text == seq!['+'];
            let value = if first {
                digit
            } else {
                (10 * before->Some_0 + digit) as nat
            };
            unsigned_value(text.push(c), bound) == if (first || before is Some) && value <= bound {
                Some(value)
            } else {
                None
            }
        },
{
    let more = text.push(c);
    let digits = unsigned_digits(text);
    let grown = unsigned_digits(more);
    assert(more[more.len() - 1] == c);
    if text.len() == 0 && c == '+' {
        assert(grown =~= Seq::empty());
    } else {
        assert(text.len() > 0 ==> more[0] == text[0]);
        assert(grown =~= digits.push(c));
        assert(grown.drop_last() =~= digits);
        assert(grown[grown.len() - 1] == c);
        if all_digits(digits) && is_digit(c) {
            assert(all_digits(grown));
        }
        if all_digits(grown) {
            assert forall|i: int| 0 <= i < digits.len() implies is_digit(#[trigger] digits[i]) by {
                assert(grown[i] == digits[i]);
            }
        }
        if text.len() == 0 {
            assert(digits =~= Seq::empty());
        } else if text == seq!['+'] {
            assert(digits =~= Seq::empty());
        } else if digits.len() == 0 {
            assert(text =~= seq!['+']);
        }
        assert(digits_value(Seq::empty()) == 0);
    }
}

/// Further digits do not make an integer less.
proof fn lemma_digits_value_grows(digits: Seq<char>, n: int)
    requires
        0 <= n <= digits.len(),
    ensures
        digits_value(digits.take(n)) <= digits_value(digits),
    decreases digits.len(),
{
    if n == digits.len() {
        assert(digits.take(n) =~= digits);
    } else {
        lemma_digits_value_grows(digits.drop_last(), n);
        assert(digits.drop_last().take(n) =~= digits.take(n));
    }
}

/// The characters of a text.
pub(crate) fn chars_of(text: &str) -> (r: Vec<char>)
    ensures
        r@ == text@,
{
    let mut chars: Vec<char> = Vec::new();
    for c in it: text.chars()
        invariant
            it.seq() == text@,
            chars@ =~= text@.take(it.index() as int),
    {
        chars.push(c);
    }
    assert(text@.take(text@.len() as int) =~= text@);
    chars
}

/// The integer up to a bound that characters spell.
pub(crate) fn parse_unsigned(chars: &Vec<char>, bound: u64) -> (r: Option<u64>)
    ensures
        r is Some <==> unsigned_value(chars@, bound as nat) is Some,
        r is Some ==> r->Some_0 == unsigned_value(chars@, bound as nat)->Some_0,
{
    let from: usize = if chars.len() > 0 && chars[0] == '+' {
        1
    } else {
        0
    };
    let ghost digits = unsigned_digits(chars@);
    assert(digits =~= chars@.skip(from as int));
    if from >= chars.len() {
        return None;
    }
    let mut value: u64 = 0;
    let mut i: usize = from;
    assert(digits.take(0) =~= Seq::empty());
    while i < chars.len()
        invariant
            from <= i <= chars@.len(),
            digits == chars@.skip(from as int),
            digits == unsigned_digits(chars@),
            all_digits(digits.take(i - from)),
            value == digits_value(digits.take(i - from)),
            value <= bound,
        decreases chars@.len() - i,
    {
        let c: char = chars[i];
        assert(digits[i - from] == c);
        if c < '0' || c > '9' {
            return None;
        }
        let ghost next = digits.take(i - from + 1);
        assert(next.drop_last() =~= digits.take(i - from));
        assert(next.last() == c);
        let digit: u64 = (c as u32 - '0' as u32) as u64;
        if value > (u64::MAX - digit) / 10 || value * 10 + digit > bound {
            proof {
                lemma_digits_value_grows(digits, i - from + 1);
            }
            return None;
        }
        value = value * 10 + digit;
        assert forall|j: int| 0 <= j < next.len() implies is_digit(#[trigger] next[j]) by {
            if j < i - from {
                assert(next[j] == digits.take(i - from)[j]);
            }
        }
        i = i + 1;
    }
    assert(digits.take(digits.len() as int) =~= digits);
    Some(value)
}

/// The integer in 64 bits that a text spells.
pub fn parse_u64(text: &str) -> (r: Option<u64>)
    ensures
        r is Some <==> unsigned_value(text@, u64::MAX as nat) is Some,
        r is Some ==> r->Some_0 == unsigned_value(text@, u64::MAX as nat)->Some_0,
{
    parse_unsigned(&chars_of(text), u64::MAX)
}

} // verus!
