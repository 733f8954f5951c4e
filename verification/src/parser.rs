//! The clipping parser: raw export text in, typed records out.
//!
//! An export is a run of entry blocks, each closed by a separator line. A
//! block holds a title line, an info line (location and date), a blank line
//! and a content line. The language of the export is decided once, from the
//! whole text, and selects the location pattern and the date grammar.

use vstd::prelude::*;
use crate::pattern::{first_match, regex_compiles, regex_first_match, regex_replace_all,
    replace_all, Pattern};
use crate::text::{append_chars, chars_of, contains, contains_text, copy_range, matches_at, split,
    split_on, starts_with, string_of, trim, trim_start, trimmed, views, without_leading_space};
use crate::time::{datetime_parse, parse_datetime, Timestamp};

verus! {

/// The token that closes an entry block; any line holding it is a separator.
pub const SEPARATOR: &'static str = "========";

/// The phrase that only English exports hold.
pub const ENGLISH_MARKER: &'static str = "Your Highlight on";

/// The byte-order mark some exports put before a title.
pub const BYTE_ORDER_MARK: char = '\u{feff}';

/// Numerals of a location in an English export: a number, or a range.
pub const LOCATION_PATTERN_EN: &'static str = r"\d+(-?\d+)?";

/// Numerals of a location in any other export: the same, with an optional
/// leading `#`.
pub const LOCATION_PATTERN_ZH: &'static str = r"#?\d+(-?\d+)?";

/// The ideographs and CJK punctuation that stand between the numbers of a
/// Chinese date.
pub const CJK_PATTERN: &'static str = r"[\x{4E00}-\x{9FFF}|\x{3000}-\x{303F}]";

/// Runs of hyphens left where several ideographs stood side by side.
pub const HYPHEN_RUN_PATTERN: &'static str = r"-{2,10}";

/// What each ideograph of a Chinese date is replaced by.
pub const HYPHEN: &'static str = "-";

/// What a run of hyphens is replaced by.
pub const NOTHING: &'static str = "";

/// The phrase before an English date.
pub const DATE_PREFIX_EN: &'static str = "Added on ";

/// The phrase before a Chinese date.
pub const DATE_PREFIX_ZH: &'static str = "添加于 ";

/// The marker of a morning hour in a Chinese date.
pub const MORNING_MARKER: &'static str = "上午";

/// Weekday, month name, day, year, 12-hour time, AM or PM.
pub const DATE_FORMAT_EN: &'static str = "%A, %B %e, %Y %l:%M:%S %p";

/// Year, month, day, 12-hour time, AM or PM.
pub const DATE_FORMAT_ZH: &'static str = "%Y-%m-%e %l:%M:%S %p";

/// The language an export was written in.
#[derive(Clone, Copy, Debug, PartialEq, Eq, Structural)]
pub enum KindleClippingLanguage {
    Zh,
    En,
}

/// One parsed entry.
#[derive(Debug, Clone)]
pub struct TClippingItem {
    pub title: String,
    pub content: String,
    pub page_at: String,
    pub created_at: Timestamp,
}

/// Why a parse was given up.
#[derive(Debug, Clone)]
pub enum ParseFailure {
    /// The block at this position has fewer than four lines.
    MalformedBlock { block: usize, lines: usize },
    /// The location section of this info line holds no numeral.
    LocationNotFound { line: String },
    /// The date section of this info line does not follow the grammar of
    /// the export's language.
    DateParseFailure { line: String, language: KindleClippingLanguage },
    /// The expression engine did not accept this pattern.
    PatternRejected { pattern: String },
}

/// What a `ParseFailure` holds, as plain sequences.
pub enum ParseFailureView {
    MalformedBlock { block: int, lines: int },
    LocationNotFound { line: Seq<char> },
    DateParseFailure { line: Seq<char>, language: KindleClippingLanguage },
    PatternRejected { pattern: Seq<char> },
}

impl View for ParseFailure {
    type V = ParseFailureView;

    open spec fn view(&self) -> ParseFailureView {
        match *self {
            ParseFailure::MalformedBlock { block, lines } => ParseFailureView::MalformedBlock {
                block: block as int,
                lines: lines as int,
            },
            ParseFailure::LocationNotFound { line } => ParseFailureView::LocationNotFound { line: line@ },
            ParseFailure::DateParseFailure { line, language } => ParseFailureView::DateParseFailure {
                line: line@,
                language,
            },
            ParseFailure::PatternRejected { pattern } => ParseFailureView::PatternRejected {
                pattern: pattern@,
            },
        }
    }
}

/// What is said of a block with too few lines.
pub const MALFORMED_BLOCK: &'static str = "malformed block";

/// What is said of an info line without a location.
pub const LOCATION_NOT_FOUND: &'static str = "location not found";

/// What is said of a date that does not follow its grammar.
pub const DATE_NOT_RECOGNIZED: &'static str = "date not recognized";

/// What is said of a pattern the expression engine did not accept.
pub const PATTERN_REJECTED: &'static str = "pattern rejected";

impl ParseFailure {
    /// The failure in words.
    pub open spec fn message_text(&self) -> Seq<char> {
        match *self {
            ParseFailure::MalformedBlock { .. } => MALFORMED_BLOCK@,
            ParseFailure::LocationNotFound { .. } => LOCATION_NOT_FOUND@,
            ParseFailure::DateParseFailure { .. } => DATE_NOT_RECOGNIZED@,
            ParseFailure::PatternRejected { .. } => PATTERN_REJECTED@,
        }
    }

    /// The failure in words.
    pub fn message(&self) -> (out: String)
        ensures
            out@ == self.message_text(),
    {
        match self {
            ParseFailure::MalformedBlock { .. } => MALFORMED_BLOCK.to_owned(),
            ParseFailure::LocationNotFound { .. } => LOCATION_NOT_FOUND.to_owned(),
            ParseFailure::DateParseFailure { .. } => DATE_NOT_RECOGNIZED.to_owned(),
            ParseFailure::PatternRejected { .. } => PATTERN_REJECTED.to_owned(),
        }
    }
}

/// What a `TClippingItem` holds, as plain sequences.
pub struct ClippingView {
    pub title: Seq<char>,
    pub content: Seq<char>,
    pub page_at: Seq<char>,
    pub created_at: Timestamp,
}

impl View for TClippingItem {
    type V = ClippingView;

    open spec fn view(&self) -> ClippingView {
        ClippingView {
            title: self.title@,
            content: self.content@,
            page_at: self.page_at@,
            created_at: self.created_at,
        }
    }
}

/// The first position of `s` that holds an opening parenthesis, ASCII or
/// fullwidth; the length of `s` where there is none.
pub open spec fn parenthesis_index(s: Seq<char>) -> int
    decreases s.len(),
{
    if s.len() == 0 || s[0] == '(' || s[0] == '（' {
        0
    } else {
        1 + parenthesis_index(s.skip(1))
    }
}

/// `s` without the closing parentheses at its end.
pub open spec fn without_closing_parentheses(s: Seq<char>) -> Seq<char>
    decreases s.len(),
{
    if s.len() > 0 && s.last() == ')' {
        without_closing_parentheses(s.drop_last())
    } else {
        s
    }
}

/// `s` without a byte-order mark at its start.
pub open spec fn without_byte_order_mark(s: Seq<char>) -> Seq<char> {
    if s.len() > 0 && s[0] == BYTE_ORDER_MARK {
        s.skip(1)
    } else {
        s
    }
}

/// The title a title line stands for: the text before the first opening
/// parenthesis, without a leading byte-order mark, closing parentheses at
/// the end, and surrounding whitespace.
pub open spec fn title_of(line: Seq<char>) -> Seq<char> {
    let body = without_byte_order_mark(line);
    trimmed(without_closing_parentheses(body.take(parenthesis_index(body))))
}

proof fn lemma_parenthesis_index(s: Seq<char>, n: int)
    requires
        0 <= n <= s.len(),
        forall|j: int| 0 <= j < n ==> s[j] != '(' && s[j] != '（',
        n == s.len() || s[n] == '(' || s[n] == '（',
    ensures
        parenthesis_index(s) == n,
    decreases n,
{
    if n > 0 {
        lemma_parenthesis_index(s.skip(1), n - 1);
    }
}

proof fn lemma_closing_parentheses_dropped(s: Seq<char>, n: int)
    requires
        0 <= n <= s.len(),
        forall|j: int| n <= j < s.len() ==> s[j] == ')',
    ensures
        without_closing_parentheses(s) == without_closing_parentheses(s.take(n)),
    decreases s.len() - n,
{
    if n < s.len() {
        lemma_closing_parentheses_dropped(s.drop_last(), n);
        assert(s.drop_last().take(n) == s.take(n));
    } else {
        assert(s.take(n) == s);
    }
}

/// The title of a title line, as characters.
pub fn title_chars(line: &[char]) -> (out: Vec<char>)
    ensures
        out@ == title_of(line@),
{
    let start: usize = if line.len() > 0 && line[0] == BYTE_ORDER_MARK {
        1
    } else {
        0
    };
    let ghost body = line@.skip(start as int);
    let mut stop: usize = start;
    while stop < line.len() && line[stop] != '(' && line[stop] != '（'
        invariant
            start <= stop <= line.len(),
            forall|j: int| start <= j < stop ==> line@[j] != '(' && line@[j] != '（',
        decreases line.len() - stop,
    {
        stop += 1;
    }
    let mut end: usize = stop;
    while end > start && line[end - 1] == ')'
        invariant
            start <= end <= stop,
            stop <= line.len(),
            forall|j: int| end <= j < stop ==> line@[j] == ')',
        decreases end,
    {
        end -= 1;
    }
    let head = copy_range(line, start, end);
    proof {
        assert(body == without_byte_order_mark(line@));
        lemma_parenthesis_index(body, stop - start);
        let cut = body.take(stop - start);
        lemma_closing_parentheses_dropped(cut, end - start);
        assert(cut.take(end - start) == line@.subrange(start as int, end as int));
        assert(without_closing_parentheses(head@) == head@);
    }
    trim(head.as_slice())
}

/// The title of a title line.
pub fn parse_title(line: &String) -> (title: String)
    ensures
        title@ == title_of(line@),
{
    let chars = chars_of(line.as_str());
    let title = title_chars(chars.as_slice());
    string_of(title.as_slice())
}

/// The location section of an info line: what stands before the first `|`.
pub open spec fn location_section(line: Seq<char>) -> Seq<char> {
    split(line, '|').first()
}

/// The date section of an info line: what stands after the last `|`.
pub open spec fn date_section(line: Seq<char>) -> Seq<char> {
    split(line, '|').last()
}

/// A matched numeral as a location: with a `#` in front, unless it has one.
pub open spec fn normalized_location(matched: Seq<char>) -> Seq<char> {
    if matched.len() > 0 && matched[0] == '#' {
        matched
    } else {
        seq!['#'] + matched
    }
}

/// The phrase that stands before the date in exports of `language`.
pub open spec fn date_prefix(language: KindleClippingLanguage) -> Seq<char> {
    match language {
        KindleClippingLanguage::En => DATE_PREFIX_EN@,
        KindleClippingLanguage::Zh => DATE_PREFIX_ZH@,
    }
}

/// A date section without its leading whitespace and without the phrase of
/// `language` that follows it, where that phrase is there.
pub open spec fn without_date_prefix(section: Seq<char>, language: KindleClippingLanguage) -> Seq<
    char,
> {
    let body = without_leading_space(section);
    if starts_with(body, date_prefix(language)) {
        body.skip(date_prefix(language).len() as int)
    } else {
        body
    }
}

/// The text handed to the date parser for an English date section.
pub open spec fn english_date_text(section: Seq<char>) -> Seq<char> {
    trimmed(without_date_prefix(section, KindleClippingLanguage::En))
}

/// Whether a Chinese date section names a morning hour.
pub open spec fn is_morning(section: Seq<char>) -> bool {
    contains(section, MORNING_MARKER@)
}

/// The text handed to the date parser for a Chinese date, given the date
/// section after its ideographs were replaced and the runs of hyphens
/// removed: trimmed, then a space and `AM` or `PM`.
pub open spec fn chinese_date_text(collapsed: Seq<char>, morning: bool) -> Seq<char> {
    trimmed(collapsed) + if morning {
        seq![' ', 'A', 'M']
    } else {
        seq![' ', 'P', 'M']
    }
}

/// A Chinese date section with every match of `cjk_pattern` replaced by a
/// hyphen and every run of hyphens then removed.
pub open spec fn collapsed_date(section: Seq<char>, cjk_pattern: Seq<char>) -> Seq<char> {
    regex_replace_all(
        HYPHEN_RUN_PATTERN@,
        regex_replace_all(
            cjk_pattern,
            without_date_prefix(section, KindleClippingLanguage::Zh),
            HYPHEN@,
        ),
        NOTHING@,
    )
}

/// The timestamp of a date section under the grammar of `language`, or
/// `None` where the section does not follow it.
pub open spec fn date_of(
    section: Seq<char>,
    language: KindleClippingLanguage,
    cjk_pattern: Seq<char>,
) -> Option<Timestamp> {
    match language {
        KindleClippingLanguage::En => datetime_parse(english_date_text(section), DATE_FORMAT_EN@),
        KindleClippingLanguage::Zh => datetime_parse(
            chinese_date_text(collapsed_date(section, cjk_pattern), is_morning(section)),
            DATE_FORMAT_ZH@,
        ),
    }
}

/// Location and timestamp of an info line, or the reason there is none.
pub open spec fn info_of(
    line: Seq<char>,
    location_pattern: Seq<char>,
    language: KindleClippingLanguage,
    cjk_pattern: Seq<char>,
) -> Result<(Seq<char>, Timestamp), ParseFailureView> {
    match regex_first_match(location_pattern, location_section(line)) {
        None => Err(ParseFailureView::LocationNotFound { line }),
        Some(matched) => if language == KindleClippingLanguage::Zh && !regex_compiles(
            HYPHEN_RUN_PATTERN@,
        ) {
            Err(ParseFailureView::PatternRejected { pattern: HYPHEN_RUN_PATTERN@ })
        } else {
            match date_of(date_section(line), language, cjk_pattern) {
                None => Err(ParseFailureView::DateParseFailure { line, language }),
                Some(created_at) => Ok((normalized_location(matched), created_at)),
            }
        },
    }
}

/// The views of what `parse_info` returns.
pub open spec fn info_view(r: Result<(String, Timestamp), ParseFailure>) -> Result<
    (Seq<char>, Timestamp),
    ParseFailureView,
> {
    match r {
        Ok(info) => Ok((info.0@, info.1)),
        Err(e) => Err(e@),
    }
}

/// A matched numeral as a location: with a `#` in front, unless it has one.
pub fn normalize_location(matched: &str) -> (out: String)
    ensures
        out@ == normalized_location(matched@),
        out@.len() > 0,
        out@[0] == '#',
{
    let chars = chars_of(matched);
    if chars.len() > 0 && chars[0] == '#' {
        string_of(chars.as_slice())
    } else {
        let mut buf: Vec<char> = Vec::new();
        buf.push('#');
        append_chars(&mut buf, chars.as_slice());
        string_of(buf.as_slice())
    }
}

/// A date section without its leading whitespace and the phrase of
/// `language` that follows it.
pub fn strip_date_prefix(section: &[char], language: KindleClippingLanguage) -> (out: Vec<char>)
    ensures
        out@ == without_date_prefix(section@, language),
{
    let body = trim_start(section);
    let prefix = match language {
        KindleClippingLanguage::En => chars_of(DATE_PREFIX_EN),
        KindleClippingLanguage::Zh => chars_of(DATE_PREFIX_ZH),
    };
    if matches_at(body.as_slice(), prefix.as_slice(), 0) {
        assert(body@.subrange(prefix.len() as int, body.len() as int) == body@.skip(
            prefix.len() as int,
        ));
        copy_range(body.as_slice(), prefix.len(), body.len())
    } else {
        body
    }
}

/// The text handed to the date parser for an English date section.
pub fn english_date(section: &[char]) -> (out: String)
    ensures
        out@ == english_date_text(section@),
{
    let stripped = strip_date_prefix(section, KindleClippingLanguage::En);
    let text = trim(stripped.as_slice());
    string_of(text.as_slice())
}

/// The text handed to the date parser for a Chinese date: `collapsed`
/// trimmed, then a space and `AM` or `PM`.
pub fn chinese_date(collapsed: &str, morning: bool) -> (out: String)
    ensures
        out@ == chinese_date_text(collapsed@, morning),
{
    let chars = chars_of(collapsed);
    let mut buf = trim(chars.as_slice());
    buf.push(' ');
    if morning {
        buf.push('A');
    } else {
        buf.push('P');
    }
    buf.push('M');
    assert(buf@ == chinese_date_text(collapsed@, morning));
    string_of(buf.as_slice())
}

/// Whether a Chinese date section names a morning hour.
pub fn names_morning(section: &[char]) -> (b: bool)
    ensures
        b == is_morning(section@),
{
    let marker = chars_of(MORNING_MARKER);
    contains_text(section, marker.as_slice())
}

/// Location and timestamp of an info line. The location is searched in the
/// section before the first `|` with `location_regex`; the date is read
/// from the section after the last `|` under the grammar of `la`, with
/// `chinese_regex` marking the ideographs of a Chinese date. A leap second
/// in the date is recorded as second 59.
pub fn parse_info(
    line: &String,
    location_regex: &Pattern,
    la: &KindleClippingLanguage,
    chinese_regex: &Pattern,
) -> (r: Result<(String, Timestamp), ParseFailure>)
    ensures
        info_view(r) == info_of(
            line@,
            location_regex@,
            *la,
            chinese_regex@,
        ),
        r matches Ok(info) ==> info.0@.len() > 0 && info.0@[0] == '#' && info.1.is_valid(),
{
    let chars = chars_of(line.as_str());
    let sections = split_on(chars.as_slice(), '|');
    assert(views(sections@)[0] == sections@[0]@);
    assert(views(sections@)[sections.len() - 1] == sections@[sections.len() - 1]@);
    let location_text = string_of(sections[0].as_slice());
    let date_chars = &sections[sections.len() - 1];
    let page_at = match first_match(location_regex, location_text.as_str()) {
        None => {
            return Err(ParseFailure::LocationNotFound { line: line.clone() });
        },
        Some(matched) => normalize_location(matched.as_str()),
    };
    let parsed = match la {
        KindleClippingLanguage::Zh => {
            let morning = names_morning(date_chars.as_slice());
            let stripped = strip_date_prefix(date_chars.as_slice(), KindleClippingLanguage::Zh);
            let stripped_text = string_of(stripped.as_slice());
            let hyphenated = replace_all(chinese_regex, stripped_text.as_str(), HYPHEN);
            let runs = match Pattern::new(HYPHEN_RUN_PATTERN) {
                Ok(runs) => runs,
                Err(rejected) => {
                    return Err(ParseFailure::PatternRejected { pattern: rejected.source });
                },
            };
            let collapsed = replace_all(&runs, hyphenated.as_str(), NOTHING);
            let text = chinese_date(collapsed.as_str(), morning);
            parse_datetime(text.as_str(), DATE_FORMAT_ZH)
        },
        KindleClippingLanguage::En => {
            let text = english_date(date_chars.as_slice());
            parse_datetime(text.as_str(), DATE_FORMAT_EN)
        },
    };
    match parsed {
        Ok(created_at) => Ok((page_at, created_at)),
        Err(_) => Err(ParseFailure::DateParseFailure { line: line.clone(), language: *la }),
    }
}

/// The language of an export: English where the text holds the English
/// marker phrase, Chinese otherwise.
pub open spec fn language_of(input: Seq<char>) -> KindleClippingLanguage {
    if contains(input, ENGLISH_MARKER@) {
        KindleClippingLanguage::En
    } else {
        KindleClippingLanguage::Zh
    }
}

/// The location pattern of exports in `language`.
pub open spec fn location_pattern(language: KindleClippingLanguage) -> Seq<char> {
    match language {
        KindleClippingLanguage::En => LOCATION_PATTERN_EN@,
        KindleClippingLanguage::Zh => LOCATION_PATTERN_ZH@,
    }
}

/// What is chosen once per export: the language, which selects the date
/// grammar, and the compiled location pattern of that language.
pub struct ParserLanguageConfig {
    pub location: Pattern,
    pub language: KindleClippingLanguage,
}

impl ParserLanguageConfig {
    /// The location pattern is the one that belongs to the language.
    pub open spec fn is_consistent(&self) -> bool {
        self.location@ == location_pattern(self.language)
    }

    /// The profile of `language`.
    pub fn for_language(language: KindleClippingLanguage) -> (r: Result<
        ParserLanguageConfig,
        ParseFailure,
    >)
        ensures
            r is Ok <==> regex_compiles(location_pattern(language)),
            r matches Ok(config) ==> config.language == language && config.is_consistent(),
            r matches Err(e) ==> e@ == (ParseFailureView::PatternRejected {
                pattern: location_pattern(language),
            }),
    {
        let pattern = match language {
            KindleClippingLanguage::En => LOCATION_PATTERN_EN,
            KindleClippingLanguage::Zh => LOCATION_PATTERN_ZH,
        };
        match Pattern::new(pattern) {
            Ok(location) => Ok(ParserLanguageConfig { location, language }),
            Err(rejected) => Err(ParseFailure::PatternRejected { pattern: rejected.source }),
        }
    }
}

/// The language of an export.
pub fn detect_language(input: &[char]) -> (language: KindleClippingLanguage)
    ensures
        language == language_of(input@),
{
    let marker = chars_of(ENGLISH_MARKER);
    if contains_text(input, marker.as_slice()) {
        KindleClippingLanguage::En
    } else {
        KindleClippingLanguage::Zh
    }
}

/// The texts of a sequence of strings.
pub open spec fn texts(v: Seq<String>) -> Seq<Seq<char>> {
    v.map_values(|s: String| s@)
}

/// The texts of a sequence of blocks.
pub open spec fn block_texts(b: Seq<Vec<String>>) -> Seq<Seq<Seq<char>>> {
    b.map_values(|x: Vec<String>| texts(x@))
}

/// The views of a sequence of records.
pub open spec fn item_views(v: Seq<TClippingItem>) -> Seq<ClippingView> {
    v.map_values(|x: TClippingItem| x@)
}

/// A line that closes a block.
pub open spec fn is_separator_line(line: Seq<char>) -> bool {
    contains(line, SEPARATOR@)
}

/// Lines grouped into blocks: the blocks closed so far, and the lines read
/// since the last separator.
pub open spec fn grouped(lines: Seq<Seq<char>>) -> (Seq<Seq<Seq<char>>>, Seq<Seq<char>>)
    decreases lines.len(),
{
    if lines.len() == 0 {
        (Seq::empty(), Seq::empty())
    } else {
        let before = grouped(lines.drop_last());
        if is_separator_line(lines.last()) {
            (before.0.push(before.1), Seq::empty())
        } else {
            (before.0, before.1.push(lines.last()))
        }
    }
}

/// The entry blocks of an export, in order. Each separator line closes the
/// block of the lines before it, empty or not; what follows the last
/// separator belongs to no block.
pub open spec fn blocks_of(input: Seq<char>) -> Seq<Seq<Seq<char>>> {
    grouped(split(input, '\n')).0
}

/// No line of a block is a separator line.
pub proof fn lemma_blocks_hold_no_separator(lines: Seq<Seq<char>>)
    ensures
        forall|b: int, l: int|
            0 <= b < grouped(lines).0.len() && 0 <= l < grouped(lines).0[b].len()
                ==> !is_separator_line(#[trigger] grouped(lines).0[b][l]),
        forall|l: int|
            0 <= l < grouped(lines).1.len() ==> !is_separator_line(#[trigger] grouped(lines).1[l]),
    decreases lines.len(),
{
    if lines.len() > 0 {
        let before = grouped(lines.drop_last());
        let now = grouped(lines);
        lemma_blocks_hold_no_separator(lines.drop_last());
        assert forall|b: int, l: int|
            0 <= b < now.0.len() && 0 <= l < now.0[b].len() implies !is_separator_line(
            #[trigger] now.0[b][l],
        ) by {
            if b < before.0.len() {
                assert(now.0[b] == before.0[b]);
                assert(!is_separator_line(before.0[b][l]));
            } else {
                assert(now.0[b] == before.1);
                assert(!is_separator_line(before.1[l]));
            }
        }
        assert forall|l: int| 0 <= l < now.1.len() implies !is_separator_line(
            #[trigger] now.1[l],
        ) by {
            if l < before.1.len() {
                assert(now.1[l] == before.1[l]);
            }
        }
    }
}

/// The entry blocks of an export, in order.
pub fn group_blocks(input: &[char]) -> (blocks: Vec<Vec<String>>)
    ensures
        block_texts(blocks@) == blocks_of(input@),
{
    let lines = split_on(input, '\n');
    let separator = chars_of(SEPARATOR);
    let mut blocks: Vec<Vec<String>> = Vec::new();
    let mut open: Vec<String> = Vec::new();
    let mut i: usize = 0;
    assert(views(lines@).take(0) == Seq::<Seq<char>>::empty());
    assert(block_texts(blocks@) == Seq::<Seq<Seq<char>>>::empty());
    assert(texts(open@) == Seq::<Seq<char>>::empty());
    while i < lines.len()
        invariant
            i <= lines.len(),
            separator@ == SEPARATOR@,
            grouped(views(lines@).take(i as int)) == (block_texts(blocks@), texts(open@)),
        decreases lines.len() - i,
    {
        proof {
            let next = views(lines@).take(i + 1);
            assert(next.drop_last() == views(lines@).take(i as int));
            assert(next.last() == lines@[i as int]@);
        }
        if contains_text(lines[i].as_slice(), separator.as_slice()) {
            assert(block_texts(blocks@.push(open)) == block_texts(blocks@).push(texts(open@)));
            blocks.push(open);
            open = Vec::new();
            assert(texts(open@) == Seq::<Seq<char>>::empty());
        } else {
            let line = string_of(lines[i].as_slice());
            assert(texts(open@.push(line)) == texts(open@).push(line@));
            open.push(line);
        }
        i += 1;
    }
    assert(views(lines@).take(lines.len() as int) == views(lines@));
    blocks
}

/// The record made of a title, a location with its timestamp, and a
/// content line: none where the content line is blank, else the record
/// with the content trimmed.
pub open spec fn assembled(
    title: Seq<char>,
    info: (Seq<char>, Timestamp),
    content_line: Seq<char>,
) -> Option<ClippingView> {
    if trimmed(content_line).len() == 0 {
        None
    } else {
        Some(
            ClippingView {
                title,
                content: trimmed(content_line),
                page_at: info.0,
                created_at: info.1,
            },
        )
    }
}

/// What a block yields: a record; nothing, where its content line is
/// blank; or the reason it cannot be read. A block with a blank content
/// line is passed over before its other lines are looked at.
pub open spec fn block_outcome(
    block: Seq<Seq<char>>,
    index: int,
    location_pattern: Seq<char>,
    language: KindleClippingLanguage,
    cjk_pattern: Seq<char>,
) -> Result<Option<ClippingView>, ParseFailureView> {
    if block.len() < 4 {
        Err(ParseFailureView::MalformedBlock { block: index, lines: block.len() as int })
    } else if trimmed(block[3]).len() == 0 {
        Ok(None)
    } else {
        match info_of(block[1], location_pattern, language, cjk_pattern) {
            Err(e) => Err(e),
            Ok(info) => Ok(assembled(title_of(block[0]), info, block[3])),
        }
    }
}

/// The records of a sequence of blocks, in order, or the failure of the
/// first block that cannot be read.
pub open spec fn records_of(
    blocks: Seq<Seq<Seq<char>>>,
    location_pattern: Seq<char>,
    language: KindleClippingLanguage,
    cjk_pattern: Seq<char>,
) -> Result<Seq<ClippingView>, ParseFailureView>
    decreases blocks.len(),
{
    if blocks.len() == 0 {
        Ok(Seq::empty())
    } else {
        match records_of(blocks.drop_last(), location_pattern, language, cjk_pattern) {
            Err(e) => Err(e),
            Ok(items) => match block_outcome(
                blocks.last(),
                blocks.len() - 1,
                location_pattern,
                language,
                cjk_pattern,
            ) {
                Err(e) => Err(e),
                Ok(None) => Ok(items),
                Ok(Some(item)) => Ok(items.push(item)),
            },
        }
    }
}

/// What parsing an export yields.
pub open spec fn parse_outcome(input: Seq<char>) -> Result<Seq<ClippingView>, ParseFailureView> {
    let language = language_of(input);
    if !regex_compiles(location_pattern(language)) {
        Err(ParseFailureView::PatternRejected { pattern: location_pattern(language) })
    } else if !regex_compiles(CJK_PATTERN@) {
        Err(ParseFailureView::PatternRejected { pattern: CJK_PATTERN@ })
    } else {
        records_of(blocks_of(input), location_pattern(language), language, CJK_PATTERN@)
    }
}

/// The views of what `parse_block` returns.
pub open spec fn block_view(r: Result<Option<TClippingItem>, ParseFailure>) -> Result<
    Option<ClippingView>,
    ParseFailureView,
> {
    match r {
        Ok(Some(item)) => Ok(Some(item@)),
        Ok(None) => Ok(None),
        Err(e) => Err(e@),
    }
}

/// The views of what `do_parse` returns.
pub open spec fn outcome_view(r: Result<Vec<TClippingItem>, ParseFailure>) -> Result<
    Seq<ClippingView>,
    ParseFailureView,
> {
    match r {
        Ok(items) => Ok(item_views(items@)),
        Err(e) => Err(e@),
    }
}

impl TClippingItem {
    /// What holds of every record the parser produces: the content is not
    /// empty, the location begins with `#`, and the timestamp exists.
    pub open spec fn is_well_formed(&self) -> bool {
        &&& self.content@.len() > 0
        &&& self.page_at@.len() > 0
        &&& self.page_at@[0] == '#'
        &&& self.created_at.is_valid()
    }
}

/// Once a block has failed, the blocks after it change nothing.
pub proof fn lemma_first_failure_stands(
    blocks: Seq<Seq<Seq<char>>>,
    n: int,
    location_pattern: Seq<char>,
    language: KindleClippingLanguage,
    cjk_pattern: Seq<char>,
)
    requires
        0 <= n <= blocks.len(),
        records_of(blocks.take(n), location_pattern, language, cjk_pattern) is Err,
    ensures
        records_of(blocks, location_pattern, language, cjk_pattern) == records_of(
            blocks.take(n),
            location_pattern,
            language,
            cjk_pattern,
        ),
    decreases blocks.len() - n,
{
    if n < blocks.len() {
        assert(blocks.drop_last().take(n) == blocks.take(n));
        lemma_first_failure_stands(blocks.drop_last(), n, location_pattern, language, cjk_pattern);
    } else {
        assert(blocks.take(n) == blocks);
    }
}

/// Parsing is a function of the text: two results for one input hold the
/// same records in the same order, or the same failure.
pub proof fn lemma_parse_is_repeatable(
    input: Seq<char>,
    first: Result<Vec<TClippingItem>, ParseFailure>,
    second: Result<Vec<TClippingItem>, ParseFailure>,
)
    requires
        outcome_view(first) == parse_outcome(input),
        outcome_view(second) == parse_outcome(input),
    ensures
        outcome_view(first) == outcome_view(second),
        first matches Ok(a) ==> second is Ok && second->Ok_0@.len() == a@.len() && forall|i: int|
            0 <= i < a@.len() ==> (#[trigger] a@[i])@ == second->Ok_0@[i]@,
        first matches Err(e) ==> second is Err && second->Err_0@ == e@,
{
    match first {
        Ok(a) => {
            let b = second->Ok_0;
            assert(item_views(a@) == item_views(b@));
            assert forall|i: int| 0 <= i < a@.len() implies (#[trigger] a@[i])@ == b@[i]@ by {
                assert(item_views(a@)[i] == a@[i]@);
                assert(item_views(b@)[i] == b@[i]@);
            }
        },
        Err(e) => {},
    }
}

/// A block whose content line is blank yields no record and no failure,
/// whatever its title and info lines hold; after any blocks, it leaves
/// their outcome as it was.
pub proof fn lemma_blank_content_is_skipped(
    blocks: Seq<Seq<Seq<char>>>,
    block: Seq<Seq<char>>,
    location_pattern: Seq<char>,
    language: KindleClippingLanguage,
    cjk_pattern: Seq<char>,
)
    requires
        block.len() >= 4,
        trimmed(block[3]).len() == 0,
    ensures
        forall|index: int|
            #[trigger] block_outcome(block, index, location_pattern, language, cjk_pattern) == Ok::<
                Option<ClippingView>,
                ParseFailureView,
            >(None),
        records_of(blocks.push(block), location_pattern, language, cjk_pattern) == records_of(
            blocks,
            location_pattern,
            language,
            cjk_pattern,
        ),
{
    let longer = blocks.push(block);
    assert(longer.drop_last() == blocks);
    assert(longer.last() == block);
}

/// The record `item` was read from `block`, its date under the grammar of
/// `language`.
pub open spec fn read_from(
    item: ClippingView,
    block: Seq<Seq<char>>,
    language: KindleClippingLanguage,
    cjk_pattern: Seq<char>,
) -> bool {
    &&& block.len() >= 4
    &&& item.title == title_of(block[0])
    &&& item.content == trimmed(block[3])
    &&& date_of(date_section(block[1]), language, cjk_pattern) == Some(item.created_at)
}

/// Every record of an outcome was read from one of the blocks, its date
/// under the grammar of the one language the blocks were parsed in; its
/// content is not empty and its location begins with `#`.
pub proof fn lemma_records_follow_one_grammar(
    blocks: Seq<Seq<Seq<char>>>,
    location_pattern: Seq<char>,
    language: KindleClippingLanguage,
    cjk_pattern: Seq<char>,
)
    ensures
        records_of(blocks, location_pattern, language, cjk_pattern) matches Ok(items) ==> forall|
            k: int,
        |
            0 <= k < items.len() ==> {
                &&& (#[trigger] items[k]).content.len() > 0
                &&& items[k].page_at.len() > 0
                &&& items[k].page_at[0] == '#'
                &&& exists|i: int|
                    0 <= i < blocks.len() && read_from(
                        items[k],
                        #[trigger] blocks[i],
                        language,
                        cjk_pattern,
                    )
            },
    decreases blocks.len(),
{
    if blocks.len() > 0 {
        let init = blocks.drop_last();
        lemma_records_follow_one_grammar(init, location_pattern, language, cjk_pattern);
        match records_of(blocks, location_pattern, language, cjk_pattern) {
            Ok(items) => {
                let before = records_of(init, location_pattern, language, cjk_pattern)->Ok_0;
                assert forall|k: int| 0 <= k < items.len() implies {
                    &&& (#[trigger] items[k]).content.len() > 0
                    &&& items[k].page_at.len() > 0
                    &&& items[k].page_at[0] == '#'
                    &&& exists|i: int|
                        0 <= i < blocks.len() && read_from(
                            items[k],
                            #[trigger] blocks[i],
                            language,
                            cjk_pattern,
                        )
                } by {
                    if k < before.len() {
                        assert(items[k] == before[k]);
                        let i = choose|i: int|
                            0 <= i < init.len() && read_from(
                                before[k],
                                #[trigger] init[i],
                                language,
                                cjk_pattern,
                            );
                        assert(init[i] == blocks[i]);
                    } else {
                        assert(read_from(
                            items[k],
                            blocks[blocks.len() - 1],
                            language,
                            cjk_pattern,
                        ));
                    }
                }
            },
            Err(_) => {},
        }
    }
}

/// An export is parsed in one language throughout: English where it holds
/// the English marker phrase, Chinese where it does not. Every record of
/// the outcome was read from a block of the export, its date under the
/// grammar of that language.
pub proof fn lemma_one_language_per_export(input: Seq<char>)
    ensures
        contains(input, ENGLISH_MARKER@) ==> language_of(input) == KindleClippingLanguage::En,
        !contains(input, ENGLISH_MARKER@) ==> language_of(input) == KindleClippingLanguage::Zh,
        parse_outcome(input) matches Ok(items) ==> forall|k: int|
            0 <= k < items.len() ==> exists|i: int|
                0 <= i < blocks_of(input).len() && read_from(
                    #[trigger] items[k],
                    #[trigger] blocks_of(input)[i],
                    language_of(input),
                    CJK_PATTERN@,
                ),
{
    let language = language_of(input);
    lemma_records_follow_one_grammar(
        blocks_of(input),
        location_pattern(language),
        language,
        CJK_PATTERN@,
    );
    match parse_outcome(input) {
        Ok(items) => {
            assert forall|k: int| 0 <= k < items.len() implies exists|i: int|
                0 <= i < blocks_of(input).len() && read_from(
                    #[trigger] items[k],
                    #[trigger] blocks_of(input)[i],
                    language_of(input),
                    CJK_PATTERN@,
                ) by {
                let i = choose|i: int|
                    0 <= i < blocks_of(input).len() && read_from(
                        items[k],
                        #[trigger] blocks_of(input)[i],
                        language,
                        CJK_PATTERN@,
                    );
                assert(read_from(items[k], blocks_of(input)[i], language_of(input), CJK_PATTERN@));
            }
        },
        Err(_) => {},
    }
}

/// A location begins with `#`, whether or not the matched numeral did.
pub proof fn lemma_location_begins_with_hash(matched: Seq<char>)
    ensures
        normalized_location(matched).len() > 0,
        normalized_location(matched)[0] == '#',
        matched.len() > 0 && matched[0] == '#' ==> normalized_location(matched) == matched,
        !(matched.len() > 0 && matched[0] == '#') ==> normalized_location(matched).skip(1)
            == matched,
{
}

/// Whether a line holds nothing but whitespace.
pub fn is_blank(line: &String) -> (b: bool)
    ensures
        b == (trimmed(line@).len() == 0),
{
    let chars = chars_of(line.as_str());
    let content = trim(chars.as_slice());
    content.len() == 0
}

/// Makes the record of a title, a location with its timestamp, and a
/// content line: none where the content line is blank.
pub fn assemble(title: String, info: (String, Timestamp), content_line: &String) -> (r: Option<
    TClippingItem,
>)
    ensures
        match r {
            Some(item) => Some(item@),
            None => None,
        } == assembled(title@, (info.0@, info.1), content_line@),
{
    let chars = chars_of(content_line.as_str());
    let content = trim(chars.as_slice());
    if content.len() == 0 {
        return None;
    }
    Some(
        TClippingItem {
            title,
            content: string_of(content.as_slice()),
            page_at: info.0,
            created_at: info.1,
        },
    )
}

/// Reads one block: title from its first line, location and date from its
/// second, content from its fourth. A block whose content line is blank
/// yields nothing, whatever its other lines hold.
pub fn parse_block(
    row: &Vec<String>,
    index: usize,
    config: &ParserLanguageConfig,
    chinese_regex: &Pattern,
) -> (r: Result<Option<TClippingItem>, ParseFailure>)
    ensures
        block_view(r) == block_outcome(
            texts(row@),
            index as int,
            config.location@,
            config.language,
            chinese_regex@,
        ),
        r matches Ok(Some(item)) ==> item.is_well_formed(),
{
    if row.len() < 4 {
        return Err(ParseFailure::MalformedBlock { block: index, lines: row.len() });
    }
    assert(texts(row@)[0] == row@[0]@);
    assert(texts(row@)[1] == row@[1]@);
    assert(texts(row@)[3] == row@[3]@);
    if is_blank(&row[3]) {
        return Ok(None);
    }
    let title = parse_title(&row[0]);
    match parse_info(&row[1], &config.location, &config.language, chinese_regex) {
        Err(e) => Err(e),
        Ok(info) => Ok(assemble(title, info, &row[3])),
    }
}

/// Parses a clippings export: the records of its blocks, in the order of
/// the export, or the failure of the first block that cannot be read.
pub fn do_parse(input: &str) -> (r: Result<Vec<TClippingItem>, ParseFailure>)
    ensures
        outcome_view(r) == parse_outcome(input@),
        r matches Ok(items) ==> forall|i: int|
            0 <= i < items.len() ==> (#[trigger] items[i]).is_well_formed(),
{
    let chars = chars_of(input);
    let language = detect_language(chars.as_slice());
    let config = match ParserLanguageConfig::for_language(language) {
        Ok(config) => config,
        Err(e) => {
            return Err(e);
        },
    };
    let chinese_regex = match Pattern::new(CJK_PATTERN) {
        Ok(pattern) => pattern,
        Err(rejected) => {
            return Err(ParseFailure::PatternRejected { pattern: rejected.source });
        },
    };
    let blocks = group_blocks(chars.as_slice());
    let ghost all = block_texts(blocks@);
    let ghost location = location_pattern(language);
    let mut items: Vec<TClippingItem> = Vec::new();
    let mut i: usize = 0;
    assert(all.take(0) == Seq::<Seq<Seq<char>>>::empty());
    assert(item_views(items@) == Seq::<ClippingView>::empty());
    while i < blocks.len()
        invariant
            i <= blocks.len(),
            all == block_texts(blocks@),
            all == blocks_of(input@),
            language == language_of(input@),
            location == location_pattern(language),
            regex_compiles(location),
            regex_compiles(CJK_PATTERN@),
            config.language == language,
            config.location@ == location,
            chinese_regex@ == CJK_PATTERN@,
            records_of(all.take(i as int), location, language, CJK_PATTERN@) == Ok::<
                Seq<ClippingView>,
                ParseFailureView,
            >(item_views(items@)),
            forall|k: int| 0 <= k < items.len() ==> (#[trigger] items[k]).is_well_formed(),
        decreases blocks.len() - i,
    {
        proof {
            let next = all.take(i + 1);
            assert(next.drop_last() == all.take(i as int));
            assert(next.last() == texts(blocks@[i as int]@));
            assert(next.len() - 1 == i);
        }
        match parse_block(&blocks[i], i, &config, &chinese_regex) {
            Err(e) => {
                proof {
                    lemma_first_failure_stands(all, i + 1, location, language, CJK_PATTERN@);
                }
                return Err(e);
            },
            Ok(None) => {},
            Ok(Some(item)) => {
                assert(item_views(items@.push(item)) == item_views(items@).push(item@));
                items.push(item);
            },
        }
        i += 1;
    }
    assert(all.take(blocks.len() as int) == all);
    Ok(items)
}

} // verus!
