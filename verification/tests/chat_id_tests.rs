use neurox::telegram_bot::parse_chat_id;

#[test]
fn plain_and_signed_ids() {
    assert_eq!(parse_chat_id("123456789"), Some(123456789));
    assert_eq!(parse_chat_id("-1001234567890"), Some(-1001234567890));
    assert_eq!(parse_chat_id("+42"), Some(42));
    assert_eq!(parse_chat_id("007"), Some(7));
    assert_eq!(parse_chat_id("-0"), Some(0));
}

#[test]
fn limits_of_i64() {
    assert_eq!(parse_chat_id("9223372036854775807"), Some(i64::MAX));
    assert_eq!(parse_chat_id("-9223372036854775808"), Some(i64::MIN));
    assert_eq!(parse_chat_id("9223372036854775808"), None);
    assert_eq!(parse_chat_id("-9223372036854775809"), None);
    assert_eq!(parse_chat_id("123456789012345678901234567890"), None);
}

#[test]
fn malformed_ids() {
    assert_eq!(parse_chat_id(""), None);
    assert_eq!(parse_chat_id("-"), None);
    assert_eq!(parse_chat_id("+"), None);
    assert_eq!(parse_chat_id(" 12"), None);
    assert_eq!(parse_chat_id("12 "), None);
    assert_eq!(parse_chat_id("1_000"), None);
    assert_eq!(parse_chat_id("--5"), None);
    assert_eq!(parse_chat_id("12a"), None);
    assert_eq!(parse_chat_id("٣"), None);
}

#[test]
fn agrees_with_std_parse() {
    for text in ["0", "-1", "+17", "99999999999", "abc", "", "-", "1-2", "18446744073709551616"] {
        assert_eq!(parse_chat_id(text), text.parse::<i64>().ok(), "{}", text);
    }
}
