//! Character-sequence primitives used by the clipping parser.
//!
//! Specifications speak of `Seq<char>`; executable code works on
//! `&[char]` and `Vec<char>`, and converts from and to `str` at the edges.

use vstd::prelude::*;

verus! {

/// The characters with the Unicode `White_Space` property.
pub open spec fn is_whitespace(c: char) -> bool {
    ||| '\u{9}' <= c <= '\u{d}'
    ||| c == ' '
    ||| c == '\u{85}'
    ||| c == '\u{a0}'
    ||| c == '\u{1680}'
    ||| '\u{2000}' <= c <= '\u{200a}'
    ||| c == '\u{2028}'
    ||| c == '\u{2029}'
    ||| c == '\u{202f}'
    ||| c == '\u{205f}'
    ||| c == '\u{3000}'
}

/// `s` without its leading whitespace.
pub open spec fn without_leading_space(s: Seq<char>) -> Seq<char>
    decreases s.len(),
{
    if s.len() > 0 && is_whitespace(s[0]) {
        without_leading_space(s.skip(1))
    } else {
        s
    }
}

/// `s` without its trailing whitespace.
pub open spec fn without_trailing_space(s: Seq<char>) -> Seq<char>
    decreases s.len(),
{
    if s.len() > 0 && is_whitespace(s.last()) {
        without_trailing_space(s.drop_last())
    } else {
        s
    }
}

/// `s` without leading and trailing whitespace.
pub open spec fn trimmed(s: Seq<char>) -> Seq<char> {
    without_trailing_space(without_leading_space(s))
}

/// `needle` stands in `hay` at position `at`.
pub open spec fn occurs_at(hay: Seq<char>, needle: Seq<char>, at: int) -> bool {
    &&& 0 <= at
    &&& at + needle.len() <= hay.len()
    &&& hay.subrange(at, at + needle.len()) == needle
}

/// `needle` stands somewhere in `hay`.
pub open spec fn contains(hay: Seq<char>, needle: Seq<char>) -> bool {
    exists|at: int| occurs_at(hay, needle, at)
}

/// `s` begins with `prefix`.
pub open spec fn starts_with(s: Seq<char>, prefix: Seq<char>) -> bool {
    occurs_at(s, prefix, 0)
}

/// The pieces of `s` between occurrences of `sep`, in order. There is always
/// at least one piece; a separator at either end leaves an empty piece there.
pub open spec fn split(s: Seq<char>, sep: char) -> Seq<Seq<char>>
    decreases s.len(),
{
    if s.len() == 0 {
        seq![Seq::<char>::empty()]
    } else {
        let before = split(s.drop_last(), sep);
        if s.last() == sep {
            before.push(Seq::<char>::empty())
        } else {
            before.drop_last().push(before.last().push(s.last()))
        }
    }
}

/// `s` without the occurrences of `needle`, found from left to right, none
/// overlapping another. An empty `needle` removes nothing.
pub open spec fn without_occurrences(s: Seq<char>, needle: Seq<char>) -> Seq<char>
    decreases s.len(),
{
    if needle.len() == 0 || s.len() == 0 {
        s
    } else if occurs_at(s, needle, 0) {
        without_occurrences(s.skip(needle.len() as int), needle)
    } else {
        seq![s[0]] + without_occurrences(s.skip(1), needle)
    }
}

/// The views of a sequence of character vectors.
pub open spec fn views(v: Seq<Vec<char>>) -> Seq<Seq<char>> {
    v.map_values(|x: Vec<char>| x@)
}

proof fn lemma_views_push(v: Seq<Vec<char>>, x: Vec<char>)
    ensures
        views(v.push(x)) == views(v).push(x@),
{
    assert(views(v.push(x)) =~= views(v).push(x@));
}

/// The pieces put together again, with `sep` between each two.
pub open spec fn joined(pieces: Seq<Seq<char>>, sep: char) -> Seq<char>
    decreases pieces.len(),
{
    if pieces.len() == 0 {
        Seq::empty()
    } else if pieces.len() == 1 {
        pieces[0]
    } else {
        joined(pieces.drop_last(), sep).push(sep) + pieces.last()
    }
}

/// A split yields at least one piece, no piece holds the separator, and
/// the pieces joined by the separator are the text that was split.
pub proof fn lemma_split_then_join(s: Seq<char>, sep: char)
    ensures
        split(s, sep).len() >= 1,
        forall|i: int, j: int|
            0 <= i < split(s, sep).len() && 0 <= j < split(s, sep)[i].len() ==> split(s, sep)[i][j]
                != sep,
        joined(split(s, sep), sep) == s,
    decreases s.len(),
{
    if s.len() == 0 {
        assert(joined(split(s, sep), sep) == s);
    } else {
        let init = s.drop_last();
        let before = split(init, sep);
        let after = split(s, sep);
        lemma_split_then_join(init, sep);
        if s.last() == sep {
            assert(after.drop_last() == before);
            assert(joined(after, sep) == joined(before, sep).push(sep) + Seq::<char>::empty());
            assert(init.push(sep) == s);
        } else {
            let grown = before.last().push(s.last());
            assert(after.last() == grown);
            assert(after.drop_last() == before.drop_last());
            if before.len() == 1 {
                assert(joined(before, sep) == before[0]);
                assert(joined(after, sep) == grown);
                assert(init.push(s.last()) == s);
            } else {
                let left = joined(before.drop_last(), sep).push(sep);
                assert(joined(before, sep) == left + before.last());
                assert(joined(after, sep) == left + grown);
                assert(left + grown == (left + before.last()).push(s.last()));
                assert(init.push(s.last()) == s);
            }
        }
    }
}

/// What is left after trimming neither begins nor ends with whitespace,
/// and stands in the text as one stretch of it.
pub proof fn lemma_trimmed(s: Seq<char>)
    ensures
        trimmed(s).len() > 0 ==> !is_whitespace(trimmed(s)[0]) && !is_whitespace(trimmed(s).last()),
        exists|from: int, to: int| 0 <= from <= to <= s.len() && trimmed(s) == s.subrange(from, to),
{
    lemma_without_leading_space(s);
    let rest = without_leading_space(s);
    lemma_without_trailing_space(rest);
    let from = choose|from: int| 0 <= from <= s.len() && rest == s.skip(from);
    let to = choose|to: int| 0 <= to <= rest.len() && trimmed(s) == rest.take(to);
    assert(rest.take(to) == s.subrange(from, from + to));
}

proof fn lemma_without_leading_space(s: Seq<char>)
    ensures
        without_leading_space(s).len() > 0 ==> !is_whitespace(without_leading_space(s)[0]),
        exists|from: int| 0 <= from <= s.len() && without_leading_space(s) == s.skip(from),
    decreases s.len(),
{
    if s.len() > 0 && is_whitespace(s[0]) {
        lemma_without_leading_space(s.skip(1));
        let from = choose|from: int|
            0 <= from <= s.skip(1).len() && without_leading_space(s.skip(1)) == s.skip(1).skip(from);
        assert(s.skip(1).skip(from) == s.skip(from + 1));
    } else {
        assert(s == s.skip(0));
    }
}

proof fn lemma_without_trailing_space(s: Seq<char>)
    ensures
        without_trailing_space(s).len() > 0 ==> !is_whitespace(without_trailing_space(s).last()),
        without_trailing_space(s).len() > 0 ==> without_trailing_space(s)[0] == s[0],
        exists|to: int| 0 <= to <= s.len() && without_trailing_space(s) == s.take(to),
    decreases s.len(),
{
    if s.len() > 0 && is_whitespace(s.last()) {
        lemma_without_trailing_space(s.drop_last());
        let to = choose|to: int|
            0 <= to <= s.drop_last().len() && without_trailing_space(s.drop_last())
                == s.drop_last().take(to);
        assert(s.drop_last().take(to) == s.take(to));
    } else {
        assert(s == s.take(s.len() as int));
    }
}

proof fn lemma_leading_space_skipped(s: Seq<char>, n: int)
    requires
        0 <= n <= s.len(),
        forall|j: int| 0 <= j < n ==> is_whitespace(s[j]),
    ensures
        without_leading_space(s) == without_leading_space(s.skip(n)),
    decreases n,
{
    if n > 0 {
        lemma_leading_space_skipped(s.skip(1), n - 1);
        assert(s.skip(1).skip(n - 1) == s.skip(n));
    } else {
        assert(s.skip(0) == s);
    }
}

proof fn lemma_trailing_space_dropped(s: Seq<char>, n: int)
    requires
        0 <= n <= s.len(),
        forall|j: int| n <= j < s.len() ==> is_whitespace(s[j]),
    ensures
        without_trailing_space(s) == without_trailing_space(s.take(n)),
    decreases s.len() - n,
{
    if n < s.len() {
        lemma_trailing_space_dropped(s.drop_last(), n);
        assert(s.drop_last().take(n) == s.take(n));
    } else {
        assert(s.take(n) == s);
    }
}

/// `char::is_whitespace`, decided by code point.
pub fn is_whitespace_char(c: char) -> (b: bool)
    ensures
        b == is_whitespace(c),
{
    ('\u{9}' <= c && c <= '\u{d}') || c == ' ' || c == '\u{85}' || c == '\u{a0}' || c == '\u{1680}'
        || ('\u{2000}' <= c && c <= '\u{200a}') || c == '\u{2028}' || c == '\u{2029}' || c
        == '\u{202f}' || c == '\u{205f}' || c == '\u{3000}'
}

/// `String::push`: appends exactly one character to the end of the string.
#[verifier::external_body]
fn push_char(s: &mut String, c: char)
    ensures
        final(s)@ == old(s)@.push(c),
{
    s.push(c);
}

/// The characters of `s`, in order.
pub fn chars_of(s: &str) -> (out: Vec<char>)
    ensures
        out@ == s@,
{
    let mut out: Vec<char> = Vec::new();
    for c in it: s.chars()
        invariant
            it.seq() == s@,
            out@ == it.seq().take(it.index() as int),
    {
        assert(it.seq().take(it.index() + 1) == it.seq().take(it.index() as int).push(c));
        out.push(c);
    }
    assert(out@ == s@.take(s@.len() as int));
    out
}

/// The string whose characters are `chars`, in order.
pub fn string_of(chars: &[char]) -> (out: String)
    ensures
        out@ == chars@,
{
    let mut out = String::new();
    let mut i: usize = 0;
    while i < chars.len()
        invariant
            i <= chars.len(),
            out@ == chars@.take(i as int),
        decreases chars.len() - i,
    {
        assert(chars@.take(i + 1) == chars@.take(i as int).push(chars@[i as int]));
        push_char(&mut out, chars[i]);
        i += 1;
    }
    assert(chars@.take(chars@.len() as int) == chars@);
    out
}

/// A copy of `s[from..to]`.
pub fn copy_range(s: &[char], from: usize, to: usize) -> (out: Vec<char>)
    requires
        from <= to <= s.len(),
    ensures
        out@ == s@.subrange(from as int, to as int),
{
    let mut out: Vec<char> = Vec::new();
    let mut i: usize = from;
    while i < to
        invariant
            from <= i <= to <= s.len(),
            out@ == s@.subrange(from as int, i as int),
        decreases to - i,
    {
        assert(s@.subrange(from as int, i + 1) == s@.subrange(from as int, i as int).push(
            s@[i as int],
        ));
        out.push(s[i]);
        i += 1;
    }
    out
}

/// `s` without leading and trailing whitespace.
pub fn trim(s: &[char]) -> (out: Vec<char>)
    ensures
        out@ == trimmed(s@),
{
    let mut start: usize = 0;
    while start < s.len() && is_whitespace_char(s[start])
        invariant
            start <= s.len(),
            forall|j: int| 0 <= j < start ==> is_whitespace(s@[j]),
        decreases s.len() - start,
    {
        start += 1;
    }
    let mut end: usize = s.len();
    while end > start && is_whitespace_char(s[end - 1])
        invariant
            start <= end <= s.len(),
            forall|j: int| end <= j < s.len() ==> is_whitespace(s@[j]),
        decreases end,
    {
        end -= 1;
    }
    proof {
        let rest = s@.skip(start as int);
        lemma_leading_space_skipped(s@, start as int);
        assert(without_leading_space(rest) == rest);
        lemma_trailing_space_dropped(rest, end - start);
        assert(rest.take(end - start) == s@.subrange(start as int, end as int));
        assert(without_trailing_space(s@.subrange(start as int, end as int)) == s@.subrange(
            start as int,
            end as int,
        ));
    }
    copy_range(s, start, end)
}

/// `s` without its leading whitespace.
pub fn trim_start(s: &[char]) -> (out: Vec<char>)
    ensures
        out@ == without_leading_space(s@),
{
    let mut start: usize = 0;
    while start < s.len() && is_whitespace_char(s[start])
        invariant
            start <= s.len(),
            forall|j: int| 0 <= j < start ==> is_whitespace(s@[j]),
        decreases s.len() - start,
    {
        start += 1;
    }
    proof {
        let rest = s@.skip(start as int);
        lemma_leading_space_skipped(s@, start as int);
        assert(without_leading_space(rest) == rest);
        assert(rest == s@.subrange(start as int, s.len() as int));
    }
    copy_range(s, start, s.len())
}

/// Appends the characters of `more` to `buf`.
pub fn append_chars(buf: &mut Vec<char>, more: &[char])
    ensures
        final(buf)@ == old(buf)@ + more@,
{
    let mut i: usize = 0;
    while i < more.len()
        invariant
            i <= more.len(),
            buf@ == old(buf)@ + more@.take(i as int),
        decreases more.len() - i,
    {
        assert(more@.take(i + 1) == more@.take(i as int).push(more@[i as int]));
        buf.push(more[i]);
        i += 1;
    }
    assert(more@.take(more.len() as int) == more@);
}

/// Whether `needle` stands in `hay` at position `at`.
pub fn matches_at(hay: &[char], needle: &[char], at: usize) -> (b: bool)
    ensures
        b == occurs_at(hay@, needle@, at as int),
{
    if needle.len() > hay.len() || at > hay.len() - needle.len() {
        return false;
    }
    let mut k: usize = 0;
    while k < needle.len()
        invariant
            k <= needle.len(),
            at + needle.len() <= hay.len(),
            forall|j: int| 0 <= j < k ==> hay@[at + j] == needle@[j],
        decreases needle.len() - k,
    {
        if hay[at + k] != needle[k] {
            assert(hay@.subrange(at as int, at + needle.len())[k as int] != needle@[k as int]);
            return false;
        }
        k += 1;
    }
    assert(hay@.subrange(at as int, at + needle.len()) =~= needle@);
    true
}

/// Whether `needle` stands somewhere in `hay`.
pub fn contains_text(hay: &[char], needle: &[char]) -> (b: bool)
    ensures
        b == contains(hay@, needle@),
{
    if needle.len() > hay.len() {
        return false;
    }
    let last: usize = hay.len() - needle.len();
    let mut at: usize = 0;
    loop
        invariant
            at <= last,
            last == hay.len() - needle.len(),
            forall|k: int| 0 <= k < at ==> !occurs_at(hay@, needle@, k),
        decreases last - at,
    {
        if matches_at(hay, needle, at) {
            return true;
        }
        if at == last {
            return false;
        }
        at += 1;
    }
}

/// `s` without the occurrences of `needle`.
pub fn remove_occurrences(s: &[char], needle: &[char]) -> (out: Vec<char>)
    ensures
        out@ == without_occurrences(s@, needle@),
{
    if needle.len() == 0 {
        assert(s@.subrange(0, s.len() as int) == s@);
        return copy_range(s, 0, s.len());
    }
    let mut out: Vec<char> = Vec::new();
    let mut i: usize = 0;
    assert(s@.skip(0) == s@);
    while i < s.len()
        invariant
            i <= s.len(),
            needle.len() > 0,
            out@ + without_occurrences(s@.skip(i as int), needle@) == without_occurrences(
                s@,
                needle@,
            ),
        decreases s.len() - i,
    {
        let ghost rest = s@.skip(i as int);
        if matches_at(s, needle, i) {
            proof {
                assert(rest.subrange(0, needle.len() as int) == s@.subrange(
                    i as int,
                    i + needle.len(),
                ));
                assert(rest.skip(needle.len() as int) == s@.skip(i + needle.len()));
            }
            i += needle.len();
        } else {
            proof {
                if i + needle.len() <= s.len() {
                    assert(rest.subrange(0, needle.len() as int) == s@.subrange(
                        i as int,
                        i + needle.len(),
                    ));
                }
                assert(rest.skip(1) == s@.skip(i + 1));
                assert(out@.push(s@[i as int]) + without_occurrences(rest.skip(1), needle@) == out@
                    + (seq![rest[0]] + without_occurrences(rest.skip(1), needle@)));
            }
            out.push(s[i]);
            i += 1;
        }
    }
    assert(out@ + Seq::<char>::empty() == out@);
    out
}

/// The pieces of `s` between occurrences of `sep`.
pub fn split_on(s: &[char], sep: char) -> (out: Vec<Vec<char>>)
    ensures
        views(out@) == split(s@, sep),
        out.len() >= 1,
{
    let mut done: Vec<Vec<char>> = Vec::new();
    let mut piece: Vec<char> = Vec::new();
    let mut i: usize = 0;
    assert(s@.take(0) == Seq::<char>::empty());
    assert(views(done@).push(piece@) == seq![Seq::<char>::empty()]);
    while i < s.len()
        invariant
            i <= s.len(),
            views(done@).push(piece@) == split(s@.take(i as int), sep),
        decreases s.len() - i,
    {
        let c = s[i];
        proof {
            let next = s@.take(i + 1);
            assert(next.drop_last() == s@.take(i as int));
            assert(next.last() == c);
            let before = views(done@).push(piece@);
            assert(before.drop_last() == views(done@));
            assert(before.last() == piece@);
        }
        if c == sep {
            proof {
                lemma_views_push(done@, piece);
            }
            done.push(piece);
            piece = Vec::new();
        } else {
            piece.push(c);
        }
        i += 1;
    }
    proof {
        assert(s@.take(s.len() as int) == s@);
        lemma_views_push(done@, piece);
    }
    done.push(piece);
    done
}

} // verus!
