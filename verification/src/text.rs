//! Strings as sequences of characters: substrings and lines.

use vstd::prelude::*;
use vstd::string::*;

verus! {

/// `needle` stands in `hay` at position `i`.
pub open spec fn occurs_at(hay: Seq<char>, needle: Seq<char>, i: int) -> bool {
    &&& 0 <= i
    &&& i + needle.len() <= hay.len()
    &&& hay.subrange(i, i + needle.len()) == needle
}

/// `needle` stands somewhere in `hay`. The empty string stands in every
/// string.
pub open spec fn contains(hay: Seq<char>, needle: Seq<char>) -> bool {
    exists|i: int| occurs_at(hay, needle, i)
}

/// The position of the first line feed in `text`, or the length of `text`
/// where it has none.
pub open spec fn line_end(text: Seq<char>) -> int
    decreases text.len(),
{
    if text.len() == 0 || text[0] == '\n' {
        0
    } else {
        1 + line_end(text.drop_first())
    }
}

/// `line` without the carriage return at its end, if it has one.
pub open spec fn without_cr(line: Seq<char>) -> Seq<char> {
    if line.len() > 0 && line.last() == '\r' {
        line.drop_last()
    } else {
        line
    }
}

/// The lines of `text`. A line ends at a line feed, or at a carriage return
/// followed by a line feed; neither belongs to the line. What follows the
/// last line feed is a line unless it is empty, and it keeps a carriage
/// return at its end.
pub open spec fn lines_of(text: Seq<char>) -> Seq<Seq<char>>
    decreases text.len(),
{
    let end = line_end(text);
    if text.len() == 0 {
        Seq::empty()
    } else if 0 <= end < text.len() {
        seq![without_cr(text.take(end))] + lines_of(text.skip(end + 1))
    } else {
        seq![text]
    }
}

/// The views of a sequence of string slices, in the same order.
pub open spec fn texts_of(parts: Seq<&str>) -> Seq<Seq<char>> {
    parts.map_values(|part: &str| part@)
}

/// Where `text` has no line feed before position `end`, and has one there
/// or ends there, its first line ends at `end`.
pub proof fn lemma_line_end(text: Seq<char>, end: int)
    requires
        0 <= end <= text.len(),
        forall|j: int| 0 <= j < end ==> text[j] != '\n',
        end < text.len() ==> text[end] == '\n',
    ensures
        line_end(text) == end,
    decreases end,
{
    if end > 0 {
        lemma_line_end(text.drop_first(), end - 1);
    }
}

/// The characters of `s`, in order.
pub fn chars_of(s: &str) -> (chars: Vec<char>)
    ensures
        chars@ == s@,
{
    let mut chars: Vec<char> = Vec::new();
    for c in it: s.chars()
        invariant
            it.seq() == s@,
            chars@ == it.seq().take(it.index() as int),
    {
        chars.push(c);
        assert(chars@ =~= it.seq().take(it.index() + 1));
    }
    assert(chars@ =~= s@);
    chars
}

/// Decides whether `needle` stands in `hay` at position `at`.
pub fn matches_at(hay: &Vec<char>, needle: &Vec<char>, at: usize) -> (found: bool)
    requires
        at + needle@.len() <= hay@.len(),
    ensures
        found == occurs_at(hay@, needle@, at as int),
{
    let size: usize = hay.len();
    let mut j: usize = 0;
    while j < needle.len()
        invariant
            j <= needle@.len(),
            at + needle@.len() <= hay@.len(),
            size == hay@.len(),
            forall|k: int| 0 <= k < j ==> hay@[at + k] == needle@[k],
        decreases needle@.len() - j,
    {
        if hay[at + j] != needle[j] {
            assert(hay@.subrange(at as int, at + needle@.len())[j as int] != needle@[j as int]);
            return false;
        }
        j = j + 1;
    }
    assert(hay@.subrange(at as int, at + needle@.len()) =~= needle@);
    true
}

/// Decides whether `needle` stands somewhere in `hay`.
pub fn contains_chars(hay: &Vec<char>, needle: &Vec<char>) -> (found: bool)
    ensures
        found == contains(hay@, needle@),
{
    if needle.len() > hay.len() {
        return false;
    }
    let last: usize = hay.len() - needle.len();
    let mut at: usize = 0;
    loop
        invariant
            at <= last,
            last == hay@.len() - needle@.len(),
            forall|i: int| 0 <= i < at ==> !occurs_at(hay@, needle@, i),
        decreases last - at,
    {
        if matches_at(hay, needle, at) {
            return true;
        }
        if at == last {
            return false;
        }
        at = at + 1;
    }
}

/// Decides whether `needle` stands somewhere in `hay`.
pub fn contains_str(hay: &str, needle: &str) -> (found: bool)
    ensures
        found == contains(hay@, needle@),
{
    let hay_chars = chars_of(hay);
    let needle_chars = chars_of(needle);
    contains_chars(&hay_chars, &needle_chars)
}

/// The characters of `s` from position `from` up to position `to`. `ascii`
/// says that `s` is known to hold ASCII only, where a position is a byte
/// offset and nothing needs to be decoded.
pub fn slice_chars<'a>(s: &'a str, ascii: bool, from: usize, to: usize) -> (part: &'a str)
    requires
        from <= to <= s@.len(),
        ascii ==> s.is_ascii(),
    ensures
        part@ == s@.subrange(from as int, to as int),
{
    if ascii {
        s.substring_ascii(from, to)
    } else {
        s.substring_char(from, to)
    }
}

/// Splits `contents` into its lines.
pub fn split_lines<'a>(contents: &'a str) -> (lines: Vec<&'a str>)
    ensures
        texts_of(lines@) == lines_of(contents@),
{
    let text = chars_of(contents);
    let ascii = contents.is_ascii();
    let mut lines: Vec<&'a str> = Vec::new();
    let mut start: usize = 0;
    let mut i: usize = 0;
    proof {
        assert(text@.skip(0) =~= text@);
        assert(texts_of(lines@) =~= Seq::empty());
    }
    while i < text.len()
        invariant
            start <= i <= text@.len(),
            text@ == contents@,
            ascii ==> contents.is_ascii(),
            forall|j: int| start <= j < i ==> text@[j] != '\n',
            lines_of(text@) == texts_of(lines@) + lines_of(text@.skip(start as int)),
        decreases text@.len() - i,
    {
        if text[i] == '\n' {
            let end: usize = if i > start && text[i - 1] == '\r' {
                i - 1
            } else {
                i
            };
            let line = slice_chars(contents, ascii, start, end);
            proof {
                let rest = text@.skip(start as int);
                lemma_line_end(rest, i - start);
                assert(rest.take(i - start) =~= text@.subrange(start as int, i as int));
                assert(rest.skip(i - start + 1) =~= text@.skip(i + 1));
                assert(line@ =~= without_cr(text@.subrange(start as int, i as int)));
                assert(texts_of(lines@.push(line)) =~= texts_of(lines@).push(line@));
                assert(lines_of(rest) == seq![line@] + lines_of(text@.skip(i + 1)));
                assert(texts_of(lines@) + (seq![line@] + lines_of(text@.skip(i + 1)))
                    =~= texts_of(lines@).push(line@) + lines_of(text@.skip(i + 1)));
            }
            lines.push(line);
            start = i + 1;
        }
        i = i + 1;
    }
    if start < text.len() {
        let line = slice_chars(contents, ascii, start, text.len());
        proof {
            let rest = text@.skip(start as int);
            lemma_line_end(rest, rest.len() as int);
            assert(line@ =~= rest);
            assert(texts_of(lines@.push(line)) =~= texts_of(lines@).push(line@));
            assert(lines_of(rest) =~= seq![rest]);
            assert(texts_of(lines@) + seq![rest] =~= texts_of(lines@).push(line@));
        }
        lines.push(line);
    } else {
        proof {
            assert(lines_of(text@.skip(start as int)) =~= Seq::empty());
            assert(texts_of(lines@) + Seq::<Seq<char>>::empty() =~= texts_of(lines@));
        }
    }
    lines
}

} // verus!
