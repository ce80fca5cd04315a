use bhasha::{Value, int_to_text, parse_bool, parse_i64, render_value, str_eq, trim};

#[test]
fn integers_render_in_decimal() {
    assert_eq!(int_to_text(0), "0");
    assert_eq!(int_to_text(7), "7");
    assert_eq!(int_to_text(-5), "-5");
    assert_eq!(int_to_text(1234567890), "1234567890");
    assert_eq!(int_to_text(i64::MAX), "9223372036854775807");
    assert_eq!(int_to_text(i64::MIN), "-9223372036854775808");
}

#[test]
fn values_render_in_their_natural_text_form() {
    assert_eq!(render_value(&Value::Integer(-42)), "-42");
    assert_eq!(render_value(&Value::Boolean(true)), "true");
    assert_eq!(render_value(&Value::Boolean(false)), "false");
    assert_eq!(render_value(&Value::Text("hi".to_string())), "hi");
    assert_eq!(render_value(&Value::Absent), "khali");
}

#[test]
fn floats_render_as_nonempty_decimal_text() {
    let s = render_value(&Value::Float(2.5f64.to_bits()));
    assert!(!s.is_empty());
    let zero = render_value(&Value::Float(0.0f64.to_bits()));
    assert_ne!(s, zero);
}

#[test]
fn integer_parsing_follows_the_decimal_grammar() {
    assert_eq!(parse_i64("42"), Some(42));
    assert_eq!(parse_i64("-42"), Some(-42));
    assert_eq!(parse_i64("+7"), Some(7));
    assert_eq!(parse_i64("0"), Some(0));
    assert_eq!(parse_i64("9223372036854775807"), Some(i64::MAX));
    assert_eq!(parse_i64("-9223372036854775808"), Some(i64::MIN));
    assert_eq!(parse_i64("9223372036854775808"), None);
    assert_eq!(parse_i64("-9223372036854775809"), None);
    assert_eq!(parse_i64("99999999999999999999999999"), None);
    assert_eq!(parse_i64(""), None);
    assert_eq!(parse_i64("-"), None);
    assert_eq!(parse_i64("+"), None);
    assert_eq!(parse_i64("12a"), None);
    assert_eq!(parse_i64(" 12"), None);
    assert_eq!(parse_i64("1 2"), None);
}

#[test]
fn boolean_parsing_accepts_exactly_the_two_words() {
    assert_eq!(parse_bool("true"), Some(true));
    assert_eq!(parse_bool("false"), Some(false));
    assert_eq!(parse_bool("True"), None);
    assert_eq!(parse_bool("1"), None);
    assert_eq!(parse_bool(""), None);
}

#[test]
fn trimming_strips_surrounding_whitespace() {
    assert_eq!(trim("  hello  "), "hello");
    assert_eq!(trim("\t a b \n"), "a b");
    assert_eq!(trim(""), "");
    assert_eq!(trim(" \t\n"), "");
    assert_eq!(trim("x"), "x");
    assert_eq!(trim("\u{a0}x\u{a0}"), "x");
    assert_eq!(trim("\u{3000}y\u{2028}"), "y");
}

#[test]
fn text_equality_is_by_characters() {
    assert!(str_eq("", ""));
    assert!(str_eq("abc", "abc"));
    assert!(!str_eq("abc", "abd"));
    assert!(!str_eq("abc", "ab"));
    assert!(str_eq("héllo", "héllo"));
    assert!(!str_eq("héllo", "hello"));
}
