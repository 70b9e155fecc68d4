//! What holds of the texts that go back and forth.
use crate::handlers::message;
use crate::handlers::queue;
use crate::types::{EventView, MatchFoundView, MatchStartView, PlayerId, PoolType};
use vstd::prelude::*;

verus! {

/// One digit reads as its value.
pub proof fn law_one_digit_reads(c: char)
    requires
        '0' <= c <= '9',
    ensures
        message::number_in(seq![c]) == Some((c as int - '0' as int) as u32),
{
    let s = seq![c];
    reveal_with_fuel(message::decimal, 2);
    assert(s.drop_last() =~= Seq::empty());
    assert(message::unsigned_digits(s) == s);
    assert(forall|i: int| 0 <= i < s.len() ==> message::is_digit(#[trigger] s[i]));
}

/// A digit more makes ten times the number, plus the digit. A number that does not fit fits no
/// better with more digits.
pub proof fn law_next_digit_reads(digits: Seq<char>, c: char)
    requires
        digits.len() > 0,
        forall|i: int| 0 <= i < digits.len() ==> '0' <= #[trigger] digits[i] <= '9',
        '0' <= c <= '9',
    ensures
        match message::number_in(digits) {
            Some(n) => message::number_in(digits.push(c)) == (if 10 * n + (c as int - '0' as int)
                <= u32::MAX {
                Some((10 * n + (c as int - '0' as int)) as u32)
            } else {
                None
            }),
            None => message::number_in(digits.push(c)) is None,
        },
{
    let longer = digits.push(c);
    assert(longer[0] == digits[0]);
    assert(message::unsigned_digits(digits) == digits);
    assert(message::unsigned_digits(longer) == longer);
    assert(longer.drop_last() =~= digits);
    assert forall|i: int| 0 <= i < longer.len() implies message::is_digit(#[trigger] longer[i]) by {
        if i < digits.len() {
            assert(longer[i] == digits[i]);
        }
    }
    assert forall|i: int| 0 <= i < digits.len() implies message::is_digit(#[trigger] digits[i]) by {}
}

/// A plus sign before a number does not matter; it has to be the first thing, and the only sign.
pub proof fn law_plus_sign_is_skipped(text: Seq<char>)
    requires
        text.len() > 0,
        text[0] != '+',
    ensures
        message::number_in(seq!['+'] + text) == message::number_in(text),
{
    assert((seq!['+'] + text).drop_first() =~= text);
}

/// Nothing else is a number: no text without a digit, and none with anything but digits behind the
/// sign.
pub proof fn law_other_texts_are_no_numbers(text: Seq<char>)
    requires
        text.len() == 0 || text == seq!['+'] || exists|i: int|
            0 <= i < text.len() && !('0' <= #[trigger] text[i] <= '9') && !(i == 0 && text[i]
                == '+'),
    ensures
        message::number_in(text) is None,
{
    let digits = message::unsigned_digits(text);
    if text.len() > 0 && text != seq!['+'] {
        let i = choose|i: int|
            0 <= i < text.len() && !('0' <= #[trigger] text[i] <= '9') && !(i == 0 && text[i]
                == '+');
        if text[0] == '+' {
            assert(digits[i - 1] == text[i]);
            assert(!message::is_digit(digits[i - 1]));
        } else {
            assert(!message::is_digit(digits[i]));
        }
    } else if text.len() > 0 {
        assert(digits.len() == 0);
    }
}

/// Two names are names of pools, one each, and no other is.
pub proof fn law_pools_have_one_name_each(name: Seq<char>)
    ensures
        queue::pool_named(name) == Some(PoolType::NormalOneVsOne) <==> name == seq!['1', 'v', '1'],
        queue::pool_named(name) == Some(PoolType::NormalTwoVsTwo) <==> name == seq!['2', 'v', '2'],
{
    reveal_strlit("1v1");
    reveal_strlit("2v2");
    assert("1v1"@ =~= seq!['1', 'v', '1']);
    assert("2v2"@ =~= seq!['2', 'v', '2']);
    assert("1v1"@[0] != "2v2"@[0]);
}

/// The text of an event is the kind of event, a comma and what there is to know: the JSON of a
/// match that was found or starts, or the player who is ready. That there is no match is a word of
/// its own.
pub proof fn law_events_are_worded(
    found: MatchFoundView,
    start: MatchStartView,
    player: PlayerId,
    json: Seq<char>,
)
    ensures
        queue::event_text(EventView::MatchFound(found), json) == "MATCH_FOUND"@ + ","@ + json,
        queue::event_text(EventView::MatchStart(start), json) == "MATCH_START"@ + ","@ + json,
        queue::event_text(EventView::PlayerReady(player), json) == "PLAYER_READY"@ + ","@ + player,
        queue::event_text(EventView::MatchNotFound, json) == "MATCH_NOT_FOUND"@,
{
    reveal_strlit("MATCH_FOUND");
    reveal_strlit("MATCH_FOUND,");
    reveal_strlit("MATCH_START");
    reveal_strlit("MATCH_START,");
    reveal_strlit("PLAYER_READY");
    reveal_strlit("PLAYER_READY,");
    reveal_strlit(",");
    assert("MATCH_FOUND,"@ =~= "MATCH_FOUND"@ + ","@);
    assert("MATCH_START,"@ =~= "MATCH_START"@ + ","@);
    assert("PLAYER_READY,"@ =~= "PLAYER_READY"@ + ","@);
}

} // verus!
