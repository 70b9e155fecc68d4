//! The text messages that a client and the server exchange.
//!
//! A message is a list of fields that commas separate. Reading takes one field at a time off the
//! front, so that the last field may hold commas of its own.
use vstd::prelude::*;

verus! {

/// The position of the first comma of `s`, or the length of `s` if it holds none.
pub open spec fn first_comma(s: Seq<char>) -> int
    decreases s.len(),
{
    if s.len() == 0 || s[0] == ',' {
        0
    } else {
        1 + first_comma(s.drop_first())
    }
}

/// The first field of a message.
pub open spec fn first_field(s: Seq<char>) -> Seq<char> {
    s.take(first_comma(s))
}

/// What follows the first comma of a message; nothing, if there is no comma.
pub open spec fn other_fields(s: Seq<char>) -> Seq<char> {
    if first_comma(s) < s.len() {
        s.skip(first_comma(s) + 1)
    } else {
        Seq::empty()
    }
}

/// `first_comma` is the least position that holds a comma.
pub proof fn lemma_first_comma(s: Seq<char>)
    ensures
        0 <= first_comma(s) <= s.len(),
        first_comma(s) < s.len() ==> s[first_comma(s)] == ',',
        forall|i: int| 0 <= i < first_comma(s) ==> s[i] != ',',
    decreases s.len(),
{
    if s.len() != 0 && s[0] != ',' {
        lemma_first_comma(s.drop_first());
        assert forall|i: int| 0 <= i < first_comma(s) implies s[i] != ',' by {
            if i > 0 {
                assert(s[i] == s.drop_first()[i - 1]);
            }
        }
    }
}

/// A position that holds a comma, with none before it, is `first_comma`.
pub proof fn lemma_first_comma_at(s: Seq<char>, at: int)
    requires
        0 <= at <= s.len(),
        at < s.len() ==> s[at] == ',',
        forall|i: int| 0 <= i < at ==> s[i] != ',',
    ensures
        first_comma(s) == at,
{
    lemma_first_comma(s);
}

/// Splits a message into its first field and the rest.
pub fn parse_message(message: &str) -> (fields: (String, String))
    ensures
        fields.0@ == first_field(message@),
        fields.1@ == other_fields(message@),
{
    let len: usize = message.unicode_len();
    let mut at: usize = 0;
    let mut rest = message.chars();
    while at < len
        invariant_except_break
            vstd::std_specs::iter::IteratorSpec::obeys_prophetic_iter_laws(&rest),
            vstd::std_specs::iter::IteratorSpec::remaining(&rest) == message@.skip(at as int),
        invariant
            at <= len,
            len == message@.len(),
            forall|i: int| 0 <= i < at ==> message@[i] != ',',
        ensures
            at < len ==> message@[at as int] == ',',
        decreases len - at,
    {
        match rest.next() {
            Some(c) => {
                if c == ',' {
                    break;
                }
            },
            None => {},
        }
        at = at + 1;
    }
    proof {
        lemma_first_comma_at(message@, at as int);
    }
    if at < len {
        (
            message.substring_char(0, at).to_string(),
            message.substring_char(at + 1, len).to_string(),
        )
    } else {
        (message.to_string(), String::new())
    }
}

/// Whether `c` is one of the ten decimal digits.
pub open spec fn is_digit(c: char) -> bool {
    '0' <= c <= '9'
}

/// The number that `digits` writes in decimal.
pub open spec fn decimal(digits: Seq<char>) -> nat
    decreases digits.len(),
{
    if digits.len() == 0 {
        0
    } else {
        10 * decimal(digits.drop_last()) + (digits.last() as nat - '0' as nat) as nat
    }
}

/// A number as a client may write it: an optional plus sign, then the digits.
pub open spec fn unsigned_digits(s: Seq<char>) -> Seq<char> {
    if s.len() > 0 && s[0] == '+' {
        s.drop_first()
    } else {
        s
    }
}

/// The 32-bit number that `s` writes: at least one digit, nothing but digits after an optional
/// plus sign, and a value that fits.
pub open spec fn number_in(s: Seq<char>) -> Option<u32> {
    let digits = unsigned_digits(s);
    if digits.len() > 0 && (forall|i: int| 0 <= i < digits.len() ==> is_digit(#[trigger] digits[i]))
        && decimal(digits) <= u32::MAX {
        Some(decimal(digits) as u32)
    } else {
        None
    }
}

/// Writing more digits makes no number smaller.
proof fn lemma_decimal_prefix(digits: Seq<char>, n: int)
    requires
        0 <= n <= digits.len(),
    ensures
        decimal(digits.take(n)) <= decimal(digits),
    decreases digits.len() - n,
{
    if n == digits.len() {
        assert(digits.take(n) =~= digits);
    } else {
        lemma_decimal_prefix(digits, n + 1);
        assert(digits.take(n + 1).drop_last() =~= digits.take(n));
    }
}

/// Reads a 32-bit number in decimal.
pub fn parse_number(text: &str) -> (number: Option<u32>)
    ensures
        number == number_in(text@),
{
    let len: usize = text.unicode_len();
    let mut rest = text.chars();
    let mut start: usize = 0;
    if len > 0 && text.get_char(0) == '+' {
        let _plus = rest.next();
        start = 1;
    }
    let ghost digits = unsigned_digits(text@);
    if start == len {
        return None;
    }
    let mut at: usize = start;
    let mut value: u64 = 0;
    assert(vstd::std_specs::iter::IteratorSpec::remaining(&rest) =~= text@.skip(at as int));
    assert(digits =~= text@.skip(start as int));
    assert(digits.take(0) =~= Seq::<char>::empty());
    while at < len
        invariant
            start <= at <= len,
            len == text@.len(),
            digits == text@.skip(start as int),
            digits == unsigned_digits(text@),
            vstd::std_specs::iter::IteratorSpec::obeys_prophetic_iter_laws(&rest),
            vstd::std_specs::iter::IteratorSpec::remaining(&rest) == text@.skip(at as int),
            forall|i: int| 0 <= i < at - start ==> is_digit(#[trigger] digits[i]),
            value == decimal(digits.take(at - start)),
            value <= u32::MAX,
        decreases len - at,
    {
        let ghost n = at - start;
        match rest.next() {
            Some(c) => {
                assert(c == digits[n]);
                if c < '0' || c > '9' {
                    return None;
                }
                assert(digits.take(n + 1).drop_last() =~= digits.take(n));
                value = 10 * value + (c as u32 - '0' as u32) as u64;
                if value > u32::MAX as u64 {
                    proof {
                        lemma_decimal_prefix(digits, n + 1);
                    }
                    return None;
                }
            },
            None => {},
        }
        at = at + 1;
    }
    assert(digits.take(len - start) =~= digits);
    Some(value as u32)
}

} // verus!
