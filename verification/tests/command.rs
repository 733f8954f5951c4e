use ck_cli::auth::{accepts_email, accepts_password};
use ck_cli::command::{output_target, parse_export, prepare_input, OutputTarget};
use ck_cli::parser::ParseFailure;
use ck_cli::time::Timestamp;

#[test]
fn where_the_records_go() {
    assert_eq!(output_target(""), OutputTarget::Stdout);
    assert_eq!(output_target("http"), OutputTarget::Service);
    assert_eq!(output_target("https://example.org"), OutputTarget::Service);
    assert_eq!(output_target("out.json"), OutputTarget::File);
    assert_eq!(output_target("htt"), OutputTarget::File);
    assert_eq!(output_target(" http"), OutputTarget::File);
}

#[test]
fn input_loses_its_byte_order_marks() {
    assert_eq!(prepare_input("\u{feff}a\u{feff}b\u{feff}\n").unwrap(), "ab");
    assert_eq!(prepare_input("  \u{feff} a b \r\n").unwrap(), "a b");
    assert_eq!(prepare_input("").unwrap(), "");
}

#[test]
fn raw_input_is_prepared_and_parsed() {
    let raw = "\u{feff}Book Title (Author Name)\r\n- Your Highlight on page 5 | Added on Monday, January 1, 2024 3:04:05 PM\r\n\r\nText.\r\n==========\r\n\u{feff}Second (Author)\r\n- Your Highlight on page 6 | Added on Monday, January 1, 2024 3:04:06 PM\r\n\r\nMore.\r\n==========\r\n";
    let items = parse_export(raw).unwrap();
    assert_eq!(items.len(), 2);
    assert_eq!(items[0].title, "Book Title");
    assert_eq!(items[1].title, "Second");
    assert_eq!(
        items[1].created_at,
        Timestamp { year: 2024, month: 1, day: 1, hour: 15, minute: 4, second: 6 }
    );
}

#[test]
fn trimming_the_input_drops_a_last_separator() {
    let raw = "Book Title (Author Name)\n- Your Highlight on page 5 | Added on Monday, January 1, 2024 3:04:05 PM\n\nText.\n==========";
    assert_eq!(parse_export(raw).unwrap().len(), 1);
    let raw = "Book Title (Author Name)\n- Your Highlight on page 5 | Added on Monday, January 1, 2024 3:04:05 PM\n\nText.\n==========\n\n";
    assert_eq!(parse_export(raw).unwrap().len(), 1);
    let raw = "T\nno location\n\nText.\n==========\n";
    assert!(matches!(parse_export(raw), Err(ParseFailure::LocationNotFound { .. })));
}

#[test]
fn lengths_asked_at_the_prompt() {
    assert!(!accepts_email(""));
    assert!(!accepts_email("a@b.c"));
    assert!(accepts_email("a@b.cd"));
    assert!(accepts_email(&"x".repeat(64)));
    assert!(!accepts_email(&"x".repeat(65)));
    assert!(accepts_email("用户@例子.中"));
    assert!(!accepts_password("abc"));
    assert!(accepts_password("abcd"));
    assert!(accepts_password("密码密码"));
    assert!(accepts_password(&"x".repeat(64)));
    assert!(!accepts_password(&"x".repeat(65)));
}
