use matchmaking::handlers::message::{parse_message, parse_number};

fn fields(text: &str) -> (String, String) {
    parse_message(text)
}

fn pair(first: &str, rest: &str) -> (String, String) {
    (first.to_string(), rest.to_string())
}

#[test]
fn message_splits_at_first_comma() {
    assert_eq!(fields("JOIN_QUEUE,alice,1v1,ticket"), pair("JOIN_QUEUE", "alice,1v1,ticket"));
    assert_eq!(fields("a,b"), pair("a", "b"));
}

#[test]
fn message_without_comma_is_one_field() {
    assert_eq!(fields("LEAVE_QUEUE"), pair("LEAVE_QUEUE", ""));
    assert_eq!(fields(""), pair("", ""));
}

#[test]
fn message_with_empty_fields() {
    assert_eq!(fields(","), pair("", ""));
    assert_eq!(fields(",x"), pair("", "x"));
    assert_eq!(fields("x,"), pair("x", ""));
    assert_eq!(fields(",,"), pair("", ","));
}

#[test]
fn message_with_characters_of_several_bytes() {
    assert_eq!(fields("żółw,ß,日本"), pair("żółw", "ß,日本"));
    assert_eq!(fields("日本"), pair("日本", ""));
}

#[test]
fn message_reads_back_what_was_written() {
    for first in ["", "a", "op code", "日本"] {
        for rest in ["", "b", "b,c", ",", "日,本"] {
            assert_eq!(fields(&format!("{},{}", first, rest)), pair(first, rest));
        }
    }
}

#[test]
fn number_in_range() {
    assert_eq!(parse_number("0"), Some(0));
    assert_eq!(parse_number("7"), Some(7));
    assert_eq!(parse_number("42"), Some(42));
    assert_eq!(parse_number("0042"), Some(42));
    assert_eq!(parse_number("+42"), Some(42));
    assert_eq!(parse_number("4294967295"), Some(4294967295));
    assert_eq!(parse_number("00000000004294967295"), Some(4294967295));
}

#[test]
fn number_out_of_range_or_malformed() {
    assert_eq!(parse_number("4294967296"), None);
    assert_eq!(parse_number("99999999999999999999999999"), None);
    assert_eq!(parse_number("4294967296x"), None);
    assert_eq!(parse_number(""), None);
    assert_eq!(parse_number("+"), None);
    assert_eq!(parse_number("-1"), None);
    assert_eq!(parse_number("-0"), None);
    assert_eq!(parse_number("++1"), None);
    assert_eq!(parse_number("1+"), None);
    assert_eq!(parse_number(" 1"), None);
    assert_eq!(parse_number("1 "), None);
    assert_eq!(parse_number("1_000"), None);
    assert_eq!(parse_number("abc"), None);
    assert_eq!(parse_number("٣"), None);
}

#[test]
fn number_agrees_with_std() {
    let texts = [
        "0", "1", "9", "10", "+0", "+7", "-7", "", "+", "-", "+-1", "4294967294", "4294967295",
        "4294967296", "42949672950", "18446744073709551616", "1e3", "0x10", "1.0", "１", "12a",
        "a12", "\t1", "1\n", "0000000000000000000000000000000000001",
    ];
    for text in texts {
        assert_eq!(parse_number(text), text.parse::<u32>().ok(), "{:?}", text);
    }
}
