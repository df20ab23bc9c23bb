use gel_point::text::{parse_record_id, split_lines};

fn lines(text: &str) -> Vec<String> {
    split_lines(text)
}

#[test]
fn split_lines_on_newlines() {
    assert_eq!(lines("a\nbb\nccc"), vec!["a", "bb", "ccc"]);
}

#[test]
fn split_lines_drops_final_line_ending() {
    assert_eq!(lines("a\nb\n"), vec!["a", "b"]);
    assert_eq!(lines("a\n\n"), vec!["a", ""]);
    assert_eq!(lines("\n"), vec![""]);
}

#[test]
fn split_lines_of_empty_text() {
    assert!(lines("").is_empty());
}

#[test]
fn split_lines_strips_carriage_return_before_newline() {
    assert_eq!(lines("a\r\nb\r\n"), vec!["a", "b"]);
    assert_eq!(lines("a\rb\r"), vec!["a\rb\r"]);
    assert_eq!(lines("a\r\r\nb"), vec!["a\r", "b"]);
}

#[test]
fn split_lines_agrees_with_str_lines() {
    for text in ["x\ny\r\nz", "\r\n\r\n", "é|ü\n\nß", "tail\r", "one"] {
        let expected: Vec<&str> = text.lines().collect();
        assert_eq!(lines(text), expected);
    }
}

#[test]
fn record_id_reads_first_field() {
    assert_eq!(parse_record_id("5|alpha"), Some(5));
    assert_eq!(parse_record_id("42"), Some(42));
    assert_eq!(parse_record_id("+7|x|y"), Some(7));
    assert_eq!(parse_record_id("007|x"), Some(7));
}

#[test]
fn record_id_rejects_non_numbers() {
    assert_eq!(parse_record_id("abc|x"), None);
    assert_eq!(parse_record_id("|x"), None);
    assert_eq!(parse_record_id(""), None);
    assert_eq!(parse_record_id("+|x"), None);
    assert_eq!(parse_record_id("-1|x"), None);
    assert_eq!(parse_record_id(" 1|x"), None);
    assert_eq!(parse_record_id("1a|x"), None);
}

#[test]
fn record_id_bounds_of_u32() {
    assert_eq!(parse_record_id("4294967295|max"), Some(u32::MAX));
    assert_eq!(parse_record_id("4294967296|over"), None);
    assert_eq!(parse_record_id("99999999999999999999|x"), None);
    assert_eq!(parse_record_id("0|zero"), Some(0));
}

#[test]
fn record_id_agrees_with_str_parse() {
    for field in ["12", "+3", "-4", "", "x", "4294967295", "4294967296", "00"] {
        let record = format!("{field}|rest");
        assert_eq!(parse_record_id(&record), field.parse::<u32>().ok());
    }
}
