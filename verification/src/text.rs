//! Text rules: white space, trimming, lines and prefixes.
//!
//! Texts are modelled as sequences of characters. The executable functions work
//! on the characters of a text and on ranges of positions among them.

use vstd::prelude::*;
use vstd::string::*;
use vstd::utf8::{decode_utf8, valid_utf8};

verus! {

/// Whether a character is white space: the characters that Unicode gives the
/// property `White_Space`.
pub open spec fn is_white_space(c: char) -> bool {
    let u = c as u32;
    ||| 0x09 <= u <= 0x0D
    ||| u == 0x20
    ||| u == 0x85
    ||| u == 0xA0
    ||| u == 0x1680
    ||| 0x2000 <= u <= 0x200A
    ||| u == 0x2028
    ||| u == 0x2029
    ||| u == 0x202F
    ||| u == 0x205F
    ||| u == 0x3000
}

/// A text without the white space at its start.
pub open spec fn trim_start(s: Seq<char>) -> Seq<char>
    decreases s.len(),
{
    if s.len() > 0 && is_white_space(s.first()) {
        trim_start(s.drop_first())
    } else {
        s
    }
}

/// A text without the white space at its end.
pub open spec fn trim_end(s: Seq<char>) -> Seq<char>
    decreases s.len(),
{
    if s.len() > 0 && is_white_space(s.last()) {
        trim_end(s.drop_last())
    } else {
        s
    }
}

/// A text without the white space at its start and at its end.
pub open spec fn trim(s: Seq<char>) -> Seq<char> {
    trim_end(trim_start(s))
}

/// The position of the first line feed of a text, or the text's length where
/// it has none.
pub open spec fn first_line_feed(s: Seq<char>) -> int
    decreases s.len(),
{
    if s.len() == 0 || s.first() == '\n' {
        0
    } else {
        1 + first_line_feed(s.drop_first())
    }
}

/// A text without the carriage return at its end, if it has one there.
pub open spec fn strip_carriage_return(s: Seq<char>) -> Seq<char> {
    if s.len() > 0 && s.last() == '\r' {
        s.drop_last()
    } else {
        s
    }
}

/// The lines of a text. A line ends with a line feed, or with a carriage
/// return and a line feed; neither belongs to the line. What follows the last
/// line feed is a line as it stands, unless it is empty.
pub open spec fn split_lines(s: Seq<char>) -> Seq<Seq<char>>
    decreases s.len(),
{
    let end = first_line_feed(s);
    if s.len() == 0 {
        Seq::empty()
    } else if 0 <= end < s.len() {
        seq![strip_carriage_return(s.subrange(0, end))] + split_lines(
            s.subrange(end + 1, s.len() as int),
        )
    } else {
        seq![s]
    }
}

/// The texts that a sequence of strings holds.
pub open spec fn texts_of(strings: Seq<String>) -> Seq<Seq<char>> {
    Seq::new(strings.len(), |i: int| strings[i]@)
}

/// Whether the ranges are ranges of positions in a text of the given length.
pub open spec fn ranges_within(ranges: Seq<(usize, usize)>, len: nat) -> bool {
    forall|i: int| 0 <= i < ranges.len() ==> (#[trigger] ranges[i]).0 <= ranges[i].1 <= len
}

/// The parts of a text that the ranges mark.
pub open spec fn parts_of(s: Seq<char>, ranges: Seq<(usize, usize)>) -> Seq<Seq<char>>
    recommends
        ranges_within(ranges, s.len()),
{
    Seq::new(ranges.len(), |i: int| s.subrange(ranges[i].0 as int, ranges[i].1 as int))
}

/// Whether every character of a text is white space.
pub open spec fn all_white_space(s: Seq<char>) -> bool {
    forall|i: int| 0 <= i < s.len() ==> is_white_space(#[trigger] s[i])
}

/// Whether a text has no white space at its start and none at its end.
pub open spec fn is_trimmed(s: Seq<char>) -> bool {
    s.len() == 0 || (!is_white_space(s.first()) && !is_white_space(s.last()))
}

/// Trimming at the start cuts off a run of white space, and all of it: what is
/// left begins at the first character that is no white space.
pub proof fn lemma_trim_start(s: Seq<char>) -> (cut: int)
    ensures
        0 <= cut <= s.len(),
        trim_start(s) == s.subrange(cut, s.len() as int),
        all_white_space(s.subrange(0, cut)),
        cut < s.len() ==> !is_white_space(s[cut]),
    decreases s.len(),
{
    if s.len() > 0 && is_white_space(s.first()) {
        let rest = s.drop_first();
        let inner = lemma_trim_start(rest);
        assert(rest.subrange(inner, rest.len() as int) =~= s.subrange(inner + 1, s.len() as int));
        assert forall|i: int| 0 <= i < inner + 1 implies is_white_space(
            #[trigger] s.subrange(0, inner + 1)[i],
        ) by {
            if i > 0 {
                assert(s.subrange(0, inner + 1)[i] == rest.subrange(0, inner)[i - 1]);
            }
        }
        inner + 1
    } else {
        assert(s.subrange(0, s.len() as int) =~= s);
        0
    }
}

/// Trimming at the end cuts off a run of white space, and all of it: what is
/// left ends with the last character that is no white space.
pub proof fn lemma_trim_end(s: Seq<char>) -> (cut: int)
    ensures
        0 <= cut <= s.len(),
        trim_end(s) == s.subrange(0, cut),
        all_white_space(s.subrange(cut, s.len() as int)),
        cut > 0 ==> !is_white_space(s[cut - 1]),
    decreases s.len(),
{
    if s.len() > 0 && is_white_space(s.last()) {
        let rest = s.drop_last();
        let inner = lemma_trim_end(rest);
        assert(rest.subrange(0, inner) =~= s.subrange(0, inner));
        assert forall|i: int| 0 <= i < s.len() - inner implies is_white_space(
            #[trigger] s.subrange(inner, s.len() as int)[i],
        ) by {
            if i < s.len() - inner - 1 {
                assert(s.subrange(inner, s.len() as int)[i] == rest.subrange(
                    inner,
                    rest.len() as int,
                )[i]);
            }
        }
        inner
    } else {
        assert(s.subrange(0, s.len() as int) =~= s);
        s.len() as int
    }
}

/// Trimming keeps one stretch of the text: what it cuts off before and after
/// is white space only, and what it keeps has no white space at either end.
pub proof fn law_trim_keeps_the_core(s: Seq<char>) -> (cut: (int, int))
    ensures
        0 <= cut.0 <= cut.1 <= s.len(),
        trim(s) == s.subrange(cut.0, cut.1),
        all_white_space(s.subrange(0, cut.0)),
        all_white_space(s.subrange(cut.1, s.len() as int)),
        is_trimmed(trim(s)),
{
    let start = lemma_trim_start(s);
    let tail = s.subrange(start, s.len() as int);
    let kept = lemma_trim_end(tail);
    assert(tail.subrange(0, kept) =~= s.subrange(start, start + kept));
    assert(tail.subrange(kept, tail.len() as int) =~= s.subrange(start + kept, s.len() as int));
    if kept > 0 {
        assert(trim(s).first() == s[start]);
        assert(trim(s).last() == tail[kept - 1]);
    }
    (start, start + kept)
}

/// A text that has no white space at either end is left as it is.
pub proof fn law_trim_of_trimmed(s: Seq<char>)
    requires
        is_trimmed(s),
    ensures
        trim(s) == s,
{
}

/// A text without a line feed has at most one line: the text itself, unless
/// it is empty.
pub proof fn law_text_without_line_feed(s: Seq<char>)
    requires
        forall|i: int| 0 <= i < s.len() ==> s[i] != '\n',
    ensures
        first_line_feed(s) == s.len(),
        split_lines(s) == if s.len() == 0 {
            Seq::<Seq<char>>::empty()
        } else {
            seq![s]
        },
    decreases s.len(),
{
    if s.len() > 0 {
        let rest = s.drop_first();
        assert forall|i: int| 0 <= i < rest.len() implies rest[i] != '\n' by {
            assert(rest[i] == s[i + 1]);
        }
        law_text_without_line_feed(rest);
    }
}

/// `std::str::from_utf8`: the text that the bytes encode in UTF-8, where they
/// encode one, and nothing where they do not.
#[verifier::external_body]
pub(crate) fn utf8_text(bytes: &[u8]) -> (text: Option<&str>)
    ensures
        text is Some <==> valid_utf8(bytes@),
        text matches Some(s) ==> s@ == decode_utf8(bytes@),
{
    std::str::from_utf8(bytes).ok()
}

/// The text that the bytes encode in UTF-8, where they encode one.
pub fn decode_text(bytes: &[u8]) -> (text: Option<String>)
    ensures
        text is Some <==> valid_utf8(bytes@),
        text matches Some(s) ==> s@ == decode_utf8(bytes@),
{
    match utf8_text(bytes) {
        Some(s) => Some(s.to_owned()),
        None => None,
    }
}

/// Whether a character is white space.
pub fn is_whitespace(c: char) -> (b: bool)
    ensures
        b == is_white_space(c),
{
    let u: u32 = c as u32;
    (0x09 <= u && u <= 0x0D) || u == 0x20 || u == 0x85 || u == 0xA0 || u == 0x1680 || (0x2000 <= u
        && u <= 0x200A) || u == 0x2028 || u == 0x2029 || u == 0x202F || u == 0x205F || u == 0x3000
}

/// The characters of a text, in order.
pub fn chars_of(text: &str) -> (chars: Vec<char>)
    ensures
        chars@ == text@,
{
    broadcast use vstd::string::group_string_axioms;

    let mut chars: Vec<char> = Vec::new();
    for c in it: text.chars()
        invariant
            it.seq() == text@,
            chars@ == it.seq().take(it.index() as int),
    {
        chars.push(c);
        assert(it.seq().take(it.index() + 1) =~= it.seq().take(it.index() as int).push(c));
    }
    assert(chars@ =~= text@);
    chars
}

/// The range that is left of a range of a text when the white space at its
/// start and at its end is taken away.
pub fn trim_range(chars: &Vec<char>, from: usize, to: usize) -> (range: (usize, usize))
    requires
        from <= to <= chars.len(),
    ensures
        from <= range.0 <= range.1 <= to,
        chars@.subrange(range.0 as int, range.1 as int) == trim(
            chars@.subrange(from as int, to as int),
        ),
{
    let mut start: usize = from;
    while start < to && is_whitespace(chars[start])
        invariant
            from <= start <= to <= chars.len(),
            trim_start(chars@.subrange(from as int, to as int)) == trim_start(
                chars@.subrange(start as int, to as int),
            ),
        decreases to - start,
    {
        assert(chars@.subrange(start as int, to as int).drop_first() =~= chars@.subrange(
            start + 1,
            to as int,
        ));
        start += 1;
    }
    let mut end: usize = to;
    while end > start && is_whitespace(chars[end - 1])
        invariant
            start <= end <= to <= chars.len(),
            trim_end(chars@.subrange(start as int, to as int)) == trim_end(
                chars@.subrange(start as int, end as int),
            ),
        decreases end - start,
    {
        assert(chars@.subrange(start as int, end as int).drop_last() =~= chars@.subrange(
            start as int,
            end - 1,
        ));
        end -= 1;
    }
    (start, end)
}

/// The position of the first line feed at or after a position, or the text's
/// length where none follows.
pub fn line_feed_from(chars: &Vec<char>, from: usize) -> (end: usize)
    requires
        from <= chars.len(),
    ensures
        from <= end <= chars.len(),
        end - from == first_line_feed(chars@.subrange(from as int, chars.len() as int)),
{
    let n: usize = chars.len();
    let mut end: usize = from;
    while end < n && chars[end] != '\n'
        invariant
            n == chars.len(),
            from <= end <= n,
            first_line_feed(chars@.subrange(from as int, n as int)) == (end - from)
                + first_line_feed(chars@.subrange(end as int, n as int)),
        decreases n - end,
    {
        assert(chars@.subrange(end as int, n as int).drop_first() =~= chars@.subrange(
            end + 1,
            n as int,
        ));
        end += 1;
    }
    end
}

/// The ranges of a text's lines, in order.
pub fn line_ranges(chars: &Vec<char>) -> (ranges: Vec<(usize, usize)>)
    ensures
        ranges_within(ranges@, chars@.len()),
        parts_of(chars@, ranges@) == split_lines(chars@),
{
    let n: usize = chars.len();
    let mut ranges: Vec<(usize, usize)> = Vec::new();
    let mut pos: usize = 0;
    assert(chars@.subrange(0, n as int) =~= chars@);
    assert(parts_of(chars@, ranges@) =~= Seq::empty());
    while pos < n
        invariant
            n == chars.len(),
            pos <= n,
            ranges_within(ranges@, chars@.len()),
            parts_of(chars@, ranges@) + split_lines(chars@.subrange(pos as int, n as int))
                == split_lines(chars@),
        decreases n - pos,
    {
        let ghost rest = chars@.subrange(pos as int, n as int);
        let ghost before = parts_of(chars@, ranges@);
        let end: usize = line_feed_from(chars, pos);
        if end < n {
            let mut stop: usize = end;
            if stop > pos && chars[stop - 1] == '\r' {
                stop -= 1;
            }
            ranges.push((pos, stop));
            proof {
                let line = rest.subrange(0, end - pos);
                assert(line =~= chars@.subrange(pos as int, end as int));
                assert(strip_carriage_return(line) =~= chars@.subrange(pos as int, stop as int));
                assert(rest.subrange(end - pos + 1, rest.len() as int) =~= chars@.subrange(
                    end + 1,
                    n as int,
                ));
                assert(parts_of(chars@, ranges@) =~= before + seq![strip_carriage_return(line)]);
                assert(split_lines(rest) == seq![strip_carriage_return(line)] + split_lines(
                    chars@.subrange(end + 1, n as int),
                ));
                assert(before + split_lines(rest) =~= parts_of(chars@, ranges@) + split_lines(
                    chars@.subrange(end + 1, n as int),
                ));
            }
            pos = end + 1;
        } else {
            ranges.push((pos, n));
            proof {
                assert(parts_of(chars@, ranges@) =~= before + seq![rest]);
                assert(split_lines(rest) == seq![rest]);
                assert(chars@.subrange(n as int, n as int) =~= Seq::<char>::empty());
                assert(parts_of(chars@, ranges@) + split_lines(chars@.subrange(n as int, n as int))
                    =~= before + split_lines(rest));
            }
            pos = n;
        }
    }
    assert(chars@.subrange(n as int, n as int) =~= Seq::<char>::empty());
    assert(parts_of(chars@, ranges@) + Seq::<Seq<char>>::empty() =~= parts_of(chars@, ranges@));
    ranges
}

/// Whether a range of a text begins with the given characters.
pub fn range_starts_with(chars: &Vec<char>, from: usize, to: usize, prefix: &Vec<char>) -> (b:
    bool)
    requires
        from <= to <= chars.len(),
    ensures
        b == prefix@.is_prefix_of(chars@.subrange(from as int, to as int)),
{
    let ghost part = chars@.subrange(from as int, to as int);
    let m: usize = prefix.len();
    if m > to - from {
        return false;
    }
    let mut i: usize = 0;
    while i < m
        invariant
            m == prefix.len(),
            from <= to <= chars.len(),
            m <= to - from,
            i <= m,
            part == chars@.subrange(from as int, to as int),
            forall|j: int| 0 <= j < i ==> prefix@[j] == part[j],
        decreases m - i,
    {
        if chars[from + i] != prefix[i] {
            assert(part[i as int] != prefix@[i as int]);
            assert(part.subrange(0, m as int)[i as int] == part[i as int]);
            return false;
        }
        i += 1;
    }
    assert(part.subrange(0, m as int) =~= prefix@);
    true
}

/// The part of a text that a range of its characters marks, as a string.
pub fn part_of(text: &str, from: usize, to: usize) -> (part: String)
    requires
        from <= to <= text@.len(),
    ensures
        part@ == text@.subrange(from as int, to as int),
{
    text.substring_char(from, to).to_owned()
}

/// The text without the white space at its start and at its end.
pub fn trimmed(text: &str) -> (out: String)
    ensures
        out@ == trim(text@),
{
    let chars = chars_of(text);
    let range = trim_range(&chars, 0, chars.len());
    assert(chars@.subrange(0, chars.len() as int) =~= chars@);
    part_of(text, range.0, range.1)
}

/// The lines of the text, in order.
pub fn lines(text: &str) -> (out: Vec<String>)
    ensures
        texts_of(out@) == split_lines(text@),
{
    let chars = chars_of(text);
    let ranges = line_ranges(&chars);
    let mut out: Vec<String> = Vec::new();
    let mut i: usize = 0;
    while i < ranges.len()
        invariant
            i <= ranges.len(),
            chars@ == text@,
            ranges_within(ranges@, chars@.len()),
            out@.len() == i,
            forall|j: int| 0 <= j < i ==> (#[trigger] out@[j])@ == parts_of(chars@, ranges@)[j],
        decreases ranges.len() - i,
    {
        let range = ranges[i];
        out.push(part_of(text, range.0, range.1));
        i += 1;
    }
    assert(texts_of(out@) =~= parts_of(chars@, ranges@));
    out
}

} // verus!
