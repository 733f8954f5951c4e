use ck_cli::text::{
    append_chars, chars_of, contains_text, copy_range, is_whitespace_char, matches_at,
    remove_occurrences, split_on, string_of, trim, trim_start,
};

fn chars(s: &str) -> Vec<char> {
    s.chars().collect()
}

fn text(v: &[char]) -> String {
    v.iter().collect()
}

const SAMPLES: [&str; 14] = [
    "",
    " ",
    "a",
    "  a  ",
    "\t\r\n a b \u{3000}\u{a0}",
    "\u{feff} a",
    "a\u{85}",
    "\u{2000}\u{200a}x\u{2028}\u{2029}\u{202f}\u{205f}\u{1680}",
    "\u{200b}x\u{200b}",
    "| a | b |",
    "a\n\nb\n",
    "====\n========\n",
    "~/a/~/b~/",
    "添加于 2019年9月3日星期二 上午8:11:05",
];

#[test]
fn whitespace_is_what_std_calls_whitespace() {
    let mut n: u32 = 0;
    while n <= 0x10ffff {
        if let Some(c) = char::from_u32(n) {
            assert_eq!(is_whitespace_char(c), c.is_whitespace(), "U+{:04X}", n);
        }
        n += 1;
    }
}

#[test]
fn trim_agrees_with_std() {
    for s in SAMPLES {
        assert_eq!(text(&trim(&chars(s))), s.trim());
        assert_eq!(text(&trim_start(&chars(s))), s.trim_start());
    }
    assert_eq!(text(&trim(&chars("  a  b  "))), "a  b");
}

#[test]
fn split_agrees_with_std() {
    for s in SAMPLES {
        for sep in ['|', '\n', 'a', ' '] {
            let ours: Vec<String> = split_on(&chars(s), sep).iter().map(|p| text(p)).collect();
            let theirs: Vec<String> = s.split(sep).map(String::from).collect();
            assert_eq!(ours, theirs);
        }
    }
    let pieces = split_on(&chars("|a||b|"), '|');
    assert_eq!(pieces, vec![chars(""), chars("a"), chars(""), chars("b"), chars("")]);
    assert_eq!(split_on(&chars(""), '|'), vec![chars("")]);
}

#[test]
fn contains_agrees_with_std() {
    let needles = ["", "a", "==", "========", "~/", " a", "上午", "b |", "x"];
    for s in SAMPLES {
        for n in needles {
            assert_eq!(contains_text(&chars(s), &chars(n)), s.contains(n), "{:?} in {:?}", n, s);
        }
    }
    assert!(contains_text(&chars("abc"), &chars("bc")));
    assert!(!contains_text(&chars("abc"), &chars("cb")));
    assert!(!contains_text(&chars("ab"), &chars("abc")));
}

#[test]
fn matches_at_a_position() {
    let hay = chars("abcabc");
    assert!(matches_at(&hay, &chars("abc"), 0));
    assert!(matches_at(&hay, &chars("abc"), 3));
    assert!(!matches_at(&hay, &chars("abc"), 1));
    assert!(!matches_at(&hay, &chars("abc"), 4));
    assert!(!matches_at(&hay, &chars("abc"), 7));
    assert!(matches_at(&hay, &chars(""), 6));
    assert!(!matches_at(&hay, &chars(""), 7));
    assert!(!matches_at(&hay, &chars("abc"), usize::MAX));
}

#[test]
fn removal_agrees_with_std() {
    let needles = ["", "a", "==", "~/", " ", "aa", "上午"];
    for s in SAMPLES {
        for n in needles {
            if n.is_empty() {
                assert_eq!(text(&remove_occurrences(&chars(s), &chars(n))), s);
            } else {
                assert_eq!(text(&remove_occurrences(&chars(s), &chars(n))), s.replace(n, ""));
            }
        }
    }
    assert_eq!(text(&remove_occurrences(&chars("aaa"), &chars("aa"))), "a");
    assert_eq!(text(&remove_occurrences(&chars("~~//"), &chars("~/"))), "~/");
}

#[test]
fn conversions_keep_the_characters() {
    for s in SAMPLES {
        assert_eq!(chars_of(s), chars(s));
        assert_eq!(string_of(&chars(s)), s);
    }
    assert_eq!(copy_range(&chars("abcdef"), 2, 4), chars("cd"));
    assert_eq!(copy_range(&chars("abcdef"), 6, 6), chars(""));
    let mut buf = chars("ab");
    append_chars(&mut buf, &chars("cd"));
    assert_eq!(buf, chars("abcd"));
}
