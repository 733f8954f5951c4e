use ck_cli::parser::{
    assemble, is_blank, chinese_date, detect_language, do_parse, english_date, group_blocks, names_morning,
    normalize_location, parse_block, parse_info, parse_title, strip_date_prefix, title_chars,
    KindleClippingLanguage, ParseFailure, ParserLanguageConfig,
};
use ck_cli::time::Timestamp;
use ck_cli::pattern::Pattern;

fn chars(s: &str) -> Vec<char> {
    s.chars().collect()
}

fn text(v: &[char]) -> String {
    v.iter().collect()
}

fn stamp(year: i32, month: u32, day: u32, hour: u32, minute: u32, second: u32) -> Timestamp {
    Timestamp { year, month, day, hour, minute, second }
}

const EN_TWO: &str = "Book Title (Author Name)\n- Your Highlight on page 5 | Location 100-102 | Added on Monday, January 1, 2024 3:04:05 PM\n\nFirst highlighted text.\n==========\nAnother Book (Somebody Else)\n- Your Highlight on Location 77 | Added on Tuesday, January 2, 2024 11:59:59 AM\n\nSecond highlighted text.\n==========\n";

const ZH_ONE: &str = "书名 (作者)\n- 您在位置 #12-34的标注 | 添加于 2019年9月3日星期二 上午8:11:05\n\n内容在此\n==========\n";

#[test]
fn two_english_entries_in_order() {
    let items = do_parse(EN_TWO).unwrap();
    assert_eq!(items.len(), 2);
    assert_eq!(items[0].title, "Book Title");
    assert_eq!(items[0].content, "First highlighted text.");
    assert_eq!(items[0].page_at, "#5");
    assert_eq!(items[0].created_at, stamp(2024, 1, 1, 15, 4, 5));
    assert_eq!(items[0].created_at.to_rfc3339(), "2024-01-01T15:04:05+00:00");
    assert_eq!(items[1].title, "Another Book");
    assert_eq!(items[1].content, "Second highlighted text.");
    assert_eq!(items[1].page_at, "#77");
    assert_eq!(items[1].created_at, stamp(2024, 1, 2, 11, 59, 59));
    assert_eq!(items[1].created_at.to_rfc3339(), "2024-01-02T11:59:59+00:00");
}

#[test]
fn bookmark_block_is_skipped() {
    let input = "Book Title (Author Name)\n- Your Bookmark on page 5 | Location 100 | Added on Monday, January 1, 2024 3:04:05 PM\n\n\n==========\nBook Title (Author Name)\n- Your Highlight on page 6 | Location 120-121 | Added on Monday, January 1, 2024 3:05:00 PM\n\nKept.\n==========\n";
    let items = do_parse(input).unwrap();
    assert_eq!(items.len(), 1);
    assert_eq!(items[0].content, "Kept.");
    assert_eq!(items[0].page_at, "#6");
}

#[test]
fn bookmark_block_is_skipped_whatever_its_info_line_holds() {
    let input = "Title\nno numerals and no date\n\n   \n==========\nYour Highlight on\n";
    let items = do_parse(input).unwrap();
    assert!(items.is_empty());
}

#[test]
fn location_without_digits_is_an_error() {
    let input = "Book Title (Author Name)\n- Your Highlight on page five | Added on Monday, January 1, 2024 3:04:05 PM\n\nText.\n==========\n";
    match do_parse(input) {
        Err(ParseFailure::LocationNotFound { line }) => {
            assert_eq!(
                line,
                "- Your Highlight on page five | Added on Monday, January 1, 2024 3:04:05 PM"
            );
        }
        other => panic!("unexpected: {:?}", other),
    }
}

#[test]
fn first_failure_aborts_the_parse() {
    let input = format!(
        "{}Bad\n- Your Highlight on page x | Added on Monday, January 1, 2024 3:04:05 PM\n\nText.\n==========\n{}",
        EN_TWO, EN_TWO
    );
    assert!(matches!(do_parse(&input), Err(ParseFailure::LocationNotFound { .. })));
}

#[test]
fn chinese_entry() {
    let items = do_parse(ZH_ONE).unwrap();
    assert_eq!(items.len(), 1);
    assert_eq!(items[0].title, "书名");
    assert_eq!(items[0].content, "内容在此");
    assert_eq!(items[0].page_at, "#12-34");
    assert_eq!(items[0].created_at, stamp(2019, 9, 3, 8, 11, 5));
}

#[test]
fn chinese_morning_marker_decides_the_half_of_the_day() {
    let cjk = Pattern::new(ck_cli::parser::CJK_PATTERN).unwrap();
    let location = Pattern::new(ck_cli::parser::LOCATION_PATTERN_ZH).unwrap();
    let morning = String::from("- 您在位置 #12-34的标注 | 添加于 2019年9月3日星期二 上午8:11:05");
    let (page, at) =
        parse_info(&morning, &location, &KindleClippingLanguage::Zh, &cjk).unwrap();
    assert_eq!(page, "#12-34");
    assert_eq!(at, stamp(2019, 9, 3, 8, 11, 5));
    assert!(at.hour < 12);
    let evening = String::from("- 您在位置 #12-34的标注 | 添加于 2019年9月3日星期二 8:11:05");
    let (_, at) = parse_info(&evening, &location, &KindleClippingLanguage::Zh, &cjk).unwrap();
    assert_eq!(at, stamp(2019, 9, 3, 20, 11, 5));
    assert!(at.hour >= 12);
    let afternoon = String::from("- 您在位置 #12-34的标注 | 添加于 2019年9月3日星期二 下午8:11:05");
    let (_, at) = parse_info(&afternoon, &location, &KindleClippingLanguage::Zh, &cjk).unwrap();
    assert_eq!(at, stamp(2019, 9, 3, 20, 11, 5));
}

#[test]
fn title_with_byte_order_mark_and_author() {
    let line = String::from("\u{feff}Book Title (Author Name)");
    assert_eq!(parse_title(&line), "Book Title");
}

#[test]
fn title_edge_cases() {
    assert_eq!(parse_title(&String::from("  Plain title \r")), "Plain title");
    assert_eq!(parse_title(&String::from("书名（作者）")), "书名");
    assert_eq!(parse_title(&String::from("A (B) （C）")), "A");
    assert_eq!(parse_title(&String::from("A （B） (C)")), "A");
    assert_eq!(parse_title(&String::from("Title))) (Author)")), "Title)))");
    assert_eq!(parse_title(&String::from("Title)))(Author)")), "Title");
    assert_eq!(parse_title(&String::from("Title )")), "Title");
    assert_eq!(parse_title(&String::from("(Author)")), "");
    assert_eq!(parse_title(&String::from("")), "");
    assert_eq!(parse_title(&String::from("\u{feff}")), "");
    assert_eq!(parse_title(&String::from("A\u{feff}B (C)")), "A\u{feff}B");
    assert_eq!(text(&title_chars(&chars("\u{feff}\u{feff}T"))), "\u{feff}T");
}

#[test]
fn locations_always_begin_with_a_hash() {
    assert_eq!(normalize_location("12"), "#12");
    assert_eq!(normalize_location("12-34"), "#12-34");
    assert_eq!(normalize_location("#12-34"), "#12-34");
    assert_eq!(normalize_location("#"), "#");
    assert_eq!(normalize_location(""), "#");
}

#[test]
fn location_patterns() {
    let cjk = Pattern::new(ck_cli::parser::CJK_PATTERN).unwrap();
    let en = Pattern::new(ck_cli::parser::LOCATION_PATTERN_EN).unwrap();
    let zh = Pattern::new(ck_cli::parser::LOCATION_PATTERN_ZH).unwrap();
    let date = "Added on Monday, January 1, 2024 3:04:05 PM";
    let line = format!("- Your Highlight on Location #100-102 | {}", date);
    let (page, _) = parse_info(&line, &en, &KindleClippingLanguage::En, &cjk).unwrap();
    assert_eq!(page, "#100-102");
    let (page, _) = parse_info(&line, &zh, &KindleClippingLanguage::En, &cjk).unwrap();
    assert_eq!(page, "#100-102");
    let line = format!("- Your Highlight on page 9 and 12-13 | Location 4 | {}", date);
    let (page, _) = parse_info(&line, &en, &KindleClippingLanguage::En, &cjk).unwrap();
    assert_eq!(page, "#9");
    let line = format!("no numeral here | 12 | {}", date);
    assert!(matches!(
        parse_info(&line, &en, &KindleClippingLanguage::En, &cjk),
        Err(ParseFailure::LocationNotFound { .. })
    ));
    let line = format!("{} 7", date);
    let (page, at) = parse_info(&line, &en, &KindleClippingLanguage::En, &cjk).unwrap_or((
        String::from("none"),
        stamp(0, 1, 1, 0, 0, 0),
    ));
    assert_eq!(page, "none");
    assert_eq!(at.year, 0);
}

#[test]
fn english_date_deviations_fail() {
    let cjk = Pattern::new(ck_cli::parser::CJK_PATTERN).unwrap();
    let en = Pattern::new(ck_cli::parser::LOCATION_PATTERN_EN).unwrap();
    let bad = [
        "page 1 | Added on Tuesday, January 1, 2024 3:04:05 PM",
        "page 1 | Added on Monday January 1, 2024 3:04:05 PM",
        "page 1 | Added on Monday, January 1, 2024 15:04:05",
        "page 1 | Added on Monday, January 1, 2024 15:04:05 PM",
        "page 1 | Added on Monday, January 32, 2024 3:04:05 PM",
        "page 1 | 添加于 Monday, January 1, 2024 3:04:05 PM",
        "page 1 | ",
        "page 1",
    ];
    for line in bad {
        let line = String::from(line);
        match parse_info(&line, &en, &KindleClippingLanguage::En, &cjk) {
            Err(ParseFailure::DateParseFailure { line: l, language }) => {
                assert_eq!(l, line);
                assert_eq!(language, KindleClippingLanguage::En);
            }
            other => panic!("unexpected for {:?}: {:?}", line, other),
        }
    }
}

#[test]
fn date_texts() {
    assert_eq!(
        english_date(&chars(" Added on Monday, January 1, 2024 3:04:05 PM\r")),
        "Monday, January 1, 2024 3:04:05 PM"
    );
    assert_eq!(english_date(&chars("Monday  ")), "Monday");
    assert_eq!(english_date(&chars("x Added on Monday")), "x Added on Monday");
    assert_eq!(
        text(&strip_date_prefix(&chars("  添加于 2019年"), KindleClippingLanguage::Zh)),
        "2019年"
    );
    assert_eq!(
        text(&strip_date_prefix(&chars("  添加于 2019年"), KindleClippingLanguage::En)),
        "添加于 2019年"
    );
    assert_eq!(
        text(&strip_date_prefix(&chars("Added on Added on x"), KindleClippingLanguage::En)),
        "Added on x"
    );
    assert_eq!(chinese_date(" 2019-9-3 8:11:05 ", true), "2019-9-3 8:11:05 AM");
    assert_eq!(chinese_date("2019-9-3 8:11:05", false), "2019-9-3 8:11:05 PM");
    assert_eq!(chinese_date("", false), " PM");
    assert!(names_morning(&chars("2019年9月3日 上午8:11:05")));
    assert!(!names_morning(&chars("2019年9月3日 下午8:11:05")));
    assert!(!names_morning(&chars("上 午")));
}

#[test]
fn language_is_decided_by_the_marker_phrase() {
    assert_eq!(detect_language(&chars(EN_TWO)), KindleClippingLanguage::En);
    assert_eq!(detect_language(&chars(ZH_ONE)), KindleClippingLanguage::Zh);
    assert_eq!(detect_language(&chars("")), KindleClippingLanguage::Zh);
    assert_eq!(detect_language(&chars("your highlight on")), KindleClippingLanguage::Zh);
    let config = ParserLanguageConfig::for_language(KindleClippingLanguage::En).unwrap();
    assert_eq!(config.language, KindleClippingLanguage::En);
    assert_eq!(config.location.as_str(), ck_cli::parser::LOCATION_PATTERN_EN);
    let config = ParserLanguageConfig::for_language(KindleClippingLanguage::Zh).unwrap();
    assert_eq!(config.location.as_str(), ck_cli::parser::LOCATION_PATTERN_ZH);
}

#[test]
fn one_language_for_the_whole_export() {
    let mixed = format!("{}{}", ZH_ONE, EN_TWO);
    match do_parse(&mixed) {
        Err(ParseFailure::DateParseFailure { language, .. }) => {
            assert_eq!(language, KindleClippingLanguage::En)
        }
        other => panic!("unexpected: {:?}", other),
    }
    let chinese_with_english_date = "书名\n- 您在位置 #1的标注 | Added on Monday, January 1, 2024 3:04:05 PM\n\n内容\n==========\n";
    match do_parse(chinese_with_english_date) {
        Err(ParseFailure::DateParseFailure { language, .. }) => {
            assert_eq!(language, KindleClippingLanguage::Zh)
        }
        other => panic!("unexpected: {:?}", other),
    }
}

#[test]
fn blocks_are_closed_by_separator_lines() {
    let blocks = group_blocks(&chars("a\nb\n==========\n========\nc\nxx========yy\nd"));
    assert_eq!(
        blocks,
        vec![
            vec![String::from("a"), String::from("b")],
            vec![],
            vec![String::from("c")]
        ]
    );
    assert!(group_blocks(&chars("")).is_empty());
    assert!(group_blocks(&chars("a\nb\n=======\n")).is_empty());
    assert_eq!(group_blocks(&chars("========")), vec![Vec::<String>::new()]);
}

#[test]
fn short_block_is_malformed() {
    let input = "Title\n- Your Highlight on page 1 | Added on Monday, January 1, 2024 3:04:05 PM\n\n==========\n";
    match do_parse(input) {
        Err(ParseFailure::MalformedBlock { block, lines }) => {
            assert_eq!(block, 0);
            assert_eq!(lines, 3);
        }
        other => panic!("unexpected: {:?}", other),
    }
    let input = format!("{}==========\n", EN_TWO);
    match do_parse(&input) {
        Err(ParseFailure::MalformedBlock { block, lines }) => {
            assert_eq!(block, 2);
            assert_eq!(lines, 0);
        }
        other => panic!("unexpected: {:?}", other),
    }
}

#[test]
fn parse_block_reads_the_four_lines() {
    let config = ParserLanguageConfig::for_language(KindleClippingLanguage::En).unwrap();
    let cjk = Pattern::new(ck_cli::parser::CJK_PATTERN).unwrap();
    let row = vec![
        String::from("\u{feff}Title (Author)\r"),
        String::from("- Your Note on page 3 | Added on Monday, January 1, 2024 12:00:00 AM\r"),
        String::from("\r"),
        String::from("  a note \r"),
        String::from("ignored"),
    ];
    let item = parse_block(&row, 4, &config, &cjk).unwrap().unwrap();
    assert_eq!(item.title, "Title");
    assert_eq!(item.content, "a note");
    assert_eq!(item.page_at, "#3");
    assert_eq!(item.created_at, stamp(2024, 1, 1, 0, 0, 0));
}

#[test]
fn parsing_twice_gives_the_same_records() {
    for input in [EN_TWO, ZH_ONE] {
        let a = do_parse(input).unwrap();
        let b = do_parse(input).unwrap();
        assert_eq!(a.len(), b.len());
        for (x, y) in a.iter().zip(b.iter()) {
            assert_eq!(x.title, y.title);
            assert_eq!(x.content, y.content);
            assert_eq!(x.page_at, y.page_at);
            assert_eq!(x.created_at, y.created_at);
        }
    }
}

#[test]
fn windows_line_endings() {
    let input = EN_TWO.replace('\n', "\r\n");
    let items = do_parse(&input).unwrap();
    assert_eq!(items.len(), 2);
    assert_eq!(items[0].title, "Book Title");
    assert_eq!(items[0].content, "First highlighted text.");
    assert_eq!(items[1].created_at, stamp(2024, 1, 2, 11, 59, 59));
}

#[test]
fn failures_in_words() {
    assert_eq!(ParseFailure::MalformedBlock { block: 1, lines: 2 }.message(), "malformed block");
    assert_eq!(
        ParseFailure::LocationNotFound { line: String::from("x") }.message(),
        "location not found"
    );
    assert_eq!(
        ParseFailure::DateParseFailure {
            line: String::from("x"),
            language: KindleClippingLanguage::Zh
        }
        .message(),
        "date not recognized"
    );
    assert_eq!(
        ParseFailure::PatternRejected { pattern: String::from("(") }.message(),
        "pattern rejected"
    );
}

#[test]
fn chinese_date_deviations_fail() {
    let cjk = Pattern::new(ck_cli::parser::CJK_PATTERN).unwrap();
    let zh = Pattern::new(ck_cli::parser::LOCATION_PATTERN_ZH).unwrap();
    let bad = [
        "#1 | 添加于 2019年13月3日星期二 上午8:11:05",
        "#1 | 添加于 2019年9月3日星期二 上午13:11:05",
        "#1 | 添加于 2019年9月3日星期二 上午8:11",
        "#1 | 添加于 2019年2月29日星期二 上午8:11:05",
        "#1 | 添加于 2019/9/3 8:11:05",
        "#1 | 添加于 ",
        "#1",
    ];
    for line in bad {
        let line = String::from(line);
        match parse_info(&line, &zh, &KindleClippingLanguage::Zh, &cjk) {
            Err(ParseFailure::DateParseFailure { line: l, language }) => {
                assert_eq!(l, line);
                assert_eq!(language, KindleClippingLanguage::Zh);
            }
            other => panic!("unexpected for {:?}: {:?}", line, other),
        }
    }
}

#[test]
fn years_beyond_four_digits_are_read_but_not_read_back() {
    let cjk = Pattern::new(ck_cli::parser::CJK_PATTERN).unwrap();
    let zh = Pattern::new(ck_cli::parser::LOCATION_PATTERN_ZH).unwrap();
    let line = String::from("#1 | 添加于 +12019年9月3日星期二 上午8:11:05");
    let (_, at) = parse_info(&line, &zh, &KindleClippingLanguage::Zh, &cjk).unwrap();
    assert_eq!(at, stamp(12019, 9, 3, 8, 11, 5));
    assert_eq!(at.to_rfc3339(), "+12019-09-03T08:11:05+00:00");
    assert_eq!(Timestamp::from_rfc3339(&at.to_rfc3339()), None);
}

#[test]
fn records_read_back_from_their_rfc3339_text() {
    for input in [EN_TWO, ZH_ONE] {
        for item in do_parse(input).unwrap() {
            assert_eq!(Timestamp::from_rfc3339(&item.created_at.to_rfc3339()), Some(item.created_at));
        }
    }
}

#[test]
fn records_are_assembled_from_their_parts() {
    let info = (String::from("#12-34"), stamp(2024, 1, 2, 3, 4, 5));
    let item = assemble(String::from("Title"), info.clone(), &String::from("  some text \r")).unwrap();
    assert_eq!(item.title, "Title");
    assert_eq!(item.content, "some text");
    assert_eq!(item.page_at, "#12-34");
    assert_eq!(item.created_at, stamp(2024, 1, 2, 3, 4, 5));
    assert!(assemble(String::from("Title"), info.clone(), &String::from(" \t\r")).is_none());
    assert!(assemble(String::from("Title"), info, &String::from("")).is_none());
    assert!(is_blank(&String::from("")));
    assert!(is_blank(&String::from(" \u{3000}\r\n")));
    assert!(!is_blank(&String::from(" . ")));
    assert!(!is_blank(&String::from("\u{feff}")));
}

#[test]
fn patterns_are_compiled_from_their_text() {
    let pattern = Pattern::new(r"\d+").unwrap();
    assert_eq!(pattern.as_str(), r"\d+");
    let rejected = Pattern::new("(").unwrap_err();
    assert_eq!(rejected.source, "(");
    assert!(Pattern::new(r"\w{1000}").is_err());
    assert!(Pattern::new("").is_ok());
}

#[test]
fn info_line_with_patterns_of_the_caller() {
    let letters = Pattern::new("[a-z]+").unwrap();
    let nothing = Pattern::new("x^").unwrap();
    let line = String::from("PAGE seven | Added on Monday, January 1, 2024 3:04:05 PM");
    let (page, at) = parse_info(&line, &letters, &KindleClippingLanguage::En, &nothing).unwrap();
    assert_eq!(page, "#seven");
    assert_eq!(at, stamp(2024, 1, 1, 15, 4, 5));
    assert!(matches!(
        parse_info(&line, &nothing, &KindleClippingLanguage::En, &letters),
        Err(ParseFailure::LocationNotFound { .. })
    ));
    let letter = Pattern::new("[a-z]").unwrap();
    let line = String::from("#7 | 2019x9x3yy 8:11:05");
    assert!(matches!(
        parse_info(&line, &nothing, &KindleClippingLanguage::Zh, &letter),
        Err(ParseFailure::LocationNotFound { .. })
    ));
    let digits = Pattern::new(r"#?\d+").unwrap();
    let (page, at) = parse_info(&line, &digits, &KindleClippingLanguage::Zh, &letter).unwrap();
    assert_eq!(page, "#7");
    assert_eq!(at, stamp(2019, 9, 3, 20, 11, 5));
    assert!(matches!(
        parse_info(&line, &digits, &KindleClippingLanguage::Zh, &letters),
        Err(ParseFailure::DateParseFailure { .. })
    ));
}

#[test]
fn a_leap_second_is_recorded_as_second_fifty_nine() {
    let cjk = Pattern::new(ck_cli::parser::CJK_PATTERN).unwrap();
    let en = Pattern::new(ck_cli::parser::LOCATION_PATTERN_EN).unwrap();
    let line = String::from("page 1 | Added on Sunday, December 31, 2023 11:59:60 PM");
    let (_, at) = parse_info(&line, &en, &KindleClippingLanguage::En, &cjk).unwrap();
    assert_eq!(at, stamp(2023, 12, 31, 23, 59, 59));
    assert_eq!(at.to_rfc3339(), "2023-12-31T23:59:59+00:00");
    assert_eq!(
        Timestamp::from_rfc3339("2023-12-31T23:59:60+00:00"),
        Some(stamp(2023, 12, 31, 23, 59, 59))
    );
}
