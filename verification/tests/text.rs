use netrender::text::json_escape;
use netrender::text::push_decimal;
use netrender::text::push_optional_decimal;

#[test]
fn numbers_are_written_in_decimal() {
    for n in [0, 1, 9, 10, 99, 100, 1234567890, u64::MAX] {
        let mut out = "n=".to_string();
        push_decimal(&mut out, n);
        assert_eq!(out, format!("n={n}"));
    }
}

#[test]
fn optional_numbers_are_written_as_options() {
    for n in [None, Some(0), Some(42)] {
        let mut out = String::new();
        push_optional_decimal(&mut out, n);
        assert_eq!(out, format!("{n:?}"));
    }
}

#[test]
fn json_escape_replaces_one_after_the_other() {
    for value in ["", "plain", "a\"b", "a\\b", "line\nline\r", "\\n", "\\\"\n", "\u{e9}\u{1F600}"] {
        let expected = value
            .replace('\\', "\\\\")
            .replace('"', "\\\"")
            .replace('\n', "\\n")
            .replace('\r', "\\r");
        assert_eq!(json_escape(value), expected);
    }
    assert_eq!(json_escape("a\"\\\n\r"), "a\\\"\\\\\\n\\r");
    assert_ne!(json_escape("\n"), json_escape("\\n"));
    assert_eq!(json_escape("\\\""), "\\\\\\\"");
    assert_eq!(json_escape("a\"b"), json_escape("a\"") + &json_escape("b"));
}
