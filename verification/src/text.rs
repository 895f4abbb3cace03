//! Text primitives: comparison, lower-casing, trimming, markup escaping and
//! line splitting.

use vstd::prelude::*;
use vstd::utf8::encode_utf8;
use vstd::utf8::encode_utf8_decode_utf8;

verus! {

/// `String::push` of the standard library appends one character.
pub assume_specification[ String::push ](s: &mut String, ch: char)
    ensures
        final(s)@ == old(s)@.push(ch),
;

/// The lower-case form of a text as `str::to_lowercase` computes it from the
/// Unicode case tables.
pub uninterp spec fn lowercased(text: Seq<char>) -> Seq<char>;

/// `str::to_lowercase` of the standard library. Its result depends on the
/// characters of the text alone; the mapping itself is left unstated.
pub assume_specification[ str::to_lowercase ](s: &str) -> (lowered: String)
    ensures
        lowered@ == lowercased(s@),
;

/// Whether a character beyond ASCII is white space as `char::is_whitespace`
/// tells it from the Unicode tables.
pub uninterp spec fn is_wide_white_space(c: char) -> bool;

/// The white space of ASCII: the space and the five controls from the
/// horizontal tab to the carriage return.
pub open spec fn is_ascii_white_space(c: char) -> bool {
    c == ' ' || c == '\t' || c == '\n' || c == '\u{b}' || c == '\u{c}' || c == '\r'
}

/// Whether a character is white space, that is, has the Unicode property
/// `White_Space`.
pub open spec fn is_white_space(c: char) -> bool {
    if (c as u32) < 128 {
        is_ascii_white_space(c)
    } else {
        is_wide_white_space(c)
    }
}

/// A text without the white space at its start.
pub open spec fn without_leading_space(text: Seq<char>) -> Seq<char>
    decreases text.len(),
{
    if text.len() > 0 && is_white_space(text.first()) {
        without_leading_space(text.drop_first())
    } else {
        text
    }
}

/// A text without the white space at its end.
pub open spec fn without_trailing_space(text: Seq<char>) -> Seq<char>
    decreases text.len(),
{
    if text.len() > 0 && is_white_space(text.last()) {
        without_trailing_space(text.drop_last())
    } else {
        text
    }
}

/// A text without the white space at its start and at its end.
pub open spec fn trimmed(text: Seq<char>) -> Seq<char> {
    without_trailing_space(without_leading_space(text))
}

/// `char::is_whitespace` of the standard library tells whether a character
/// has the Unicode property `White_Space`. Within ASCII those are the space and
/// the controls from the horizontal tab to the carriage return; beyond ASCII
/// the table is left unstated.
pub assume_specification[ char::is_whitespace ](c: char) -> (white: bool)
    ensures
        white == if (c as u32) < 128 {
            is_ascii_white_space(c)
        } else {
            is_wide_white_space(c)
        },
;

/// Whether two texts hold the same characters. The texts are compared byte
/// by byte: two texts with the same encoding are the same text.
pub fn same_text(a: &str, b: &str) -> (same: bool)
    ensures
        same == (a@ == b@),
{
    let left = a.as_bytes();
    let right = b.as_bytes();
    proof {
        encode_utf8_decode_utf8(a@);
        encode_utf8_decode_utf8(b@);
    }
    if left.len() != right.len() {
        return false;
    }
    let mut i: usize = 0;
    while i < left.len()
        invariant
            i <= left.len(),
            left.len() == right.len(),
            left@ == encode_utf8(a@),
            right@ == encode_utf8(b@),
            forall|j: int| 0 <= j < i ==> left@[j] == right@[j],
        decreases left.len() - i,
    {
        if left[i] != right[i] {
            return false;
        }
        i += 1;
    }
    proof {
        assert(left@ =~= right@);
    }
    true
}

/// What one character becomes in markup-safe text.
pub open spec fn escaped_char(c: char) -> Seq<char> {
    if c == '&' {
        "&amp;"@
    } else if c == '<' {
        "&lt;"@
    } else if c == '>' {
        "&gt;"@
    } else if c == '"' {
        "&quot;"@
    } else if c == '\'' {
        "&#x27;"@
    } else {
        seq![c]
    }
}

/// Markup-safe encoding of a text: every character replaced by
/// [`escaped_char`], in order.
pub open spec fn escaped(text: Seq<char>) -> Seq<char>
    decreases text.len(),
{
    if text.len() == 0 {
        Seq::empty()
    } else {
        escaped(text.drop_last()) + escaped_char(text.last())
    }
}

/// Whether a character opens or closes a tag or a quoted value.
pub open spec fn is_markup_char(c: char) -> bool {
    c == '<' || c == '>' || c == '"' || c == '\''
}

/// Encoded text holds no character that opens or closes a tag or a quoted
/// value.
pub proof fn lemma_escaped_has_no_markup(text: Seq<char>)
    ensures
        forall|i: int| 0 <= i < escaped(text).len() ==> !is_markup_char(#[trigger] escaped(text)[i]),
    decreases text.len(),
{
    if text.len() > 0 {
        lemma_escaped_has_no_markup(text.drop_last());
        reveal_strlit("&amp;");
        reveal_strlit("&lt;");
        reveal_strlit("&gt;");
        reveal_strlit("&quot;");
        reveal_strlit("&#x27;");
        let front = escaped(text.drop_last());
        let back = escaped_char(text.last());
        assert forall|j: int| 0 <= j < back.len() implies !is_markup_char(#[trigger] back[j]) by {}
        assert forall|i: int| 0 <= i < escaped(text).len() implies !is_markup_char(
            #[trigger] escaped(text)[i],
        ) by {
            if i >= front.len() {
                assert(escaped(text)[i] == back[i - front.len()]);
            } else {
                assert(escaped(text)[i] == front[i]);
            }
        }
    }
}

/// Appends the markup-safe encoding of `text` to `out`.
pub fn push_escaped(out: &mut String, text: &str)
    ensures
        final(out)@ == old(out)@ + escaped(text@),
{
    let ghost start = out@;
    for c in it: text.chars()
        invariant
            it.seq() == text@,
            out@ == start + escaped(text@.take(it.index() as int)),
    {
        proof {
            let k = it.index() as int;
            assert(text@.take(k + 1).drop_last() == text@.take(k));
            assert(text@.take(k + 1).last() == c);
        }
        if c == '&' {
            out.append("&amp;");
        } else if c == '<' {
            out.append("&lt;");
        } else if c == '>' {
            out.append("&gt;");
        } else if c == '"' {
            out.append("&quot;");
        } else if c == '\'' {
            out.append("&#x27;");
        } else {
            out.push(c);
        }
    }
    proof {
        assert(text@.take(text@.len() as int) == text@);
    }
}

/// The markup-safe encoding of `text`.
pub fn escape(text: &str) -> (safe: String)
    ensures
        safe@ == escaped(text@),
{
    let mut safe = String::new();
    push_escaped(&mut safe, text);
    safe
}

/// Index of the first line feed of `text`, or its length where it has none.
pub open spec fn line_end(text: Seq<char>) -> int
    decreases text.len(),
{
    if text.len() == 0 {
        0
    } else if text[0] == '\n' {
        0
    } else {
        1 + line_end(text.drop_first())
    }
}

/// A line without the carriage return that may precede its line feed.
pub open spec fn without_carriage_return(line: Seq<char>) -> Seq<char> {
    if line.len() > 0 && line.last() == '\r' {
        line.drop_last()
    } else {
        line
    }
}

/// The lines of a text. A line ends at a line feed; the line feed and a
/// carriage return directly before it are left out. What follows the last line
/// feed is a line of its own unless it is empty, and keeps a trailing carriage
/// return.
pub open spec fn lines_of(text: Seq<char>) -> Seq<Seq<char>>
    decreases text.len(),
{
    let end = line_end(text);
    if text.len() == 0 {
        Seq::empty()
    } else if 0 <= end < text.len() {
        seq![without_carriage_return(text.take(end))] + lines_of(text.skip(end + 1))
    } else {
        seq![text]
    }
}

/// Whether a text holds no line feed.
pub open spec fn has_no_line_feed(text: Seq<char>) -> bool {
    forall|i: int| 0 <= i < text.len() ==> text[i] != '\n'
}

/// The first line of `head + rest` ends where `head` ends when `head` holds no
/// line feed and `rest` is empty or starts with one.
pub proof fn lemma_line_end_after(head: Seq<char>, rest: Seq<char>)
    requires
        has_no_line_feed(head),
        rest.len() == 0 || rest[0] == '\n',
    ensures
        line_end(head + rest) == head.len(),
    decreases head.len(),
{
    let whole = head + rest;
    if head.len() == 0 {
        assert(whole == rest);
    } else {
        assert(whole[0] == head[0]);
        assert(whole.drop_first() == head.drop_first() + rest);
        assert forall|i: int| 0 <= i < head.drop_first().len() implies head.drop_first()[i]
            != '\n' by {
            assert(head.drop_first()[i] == head[i + 1]);
        }
        lemma_line_end_after(head.drop_first(), rest);
    }
}

/// Splits a text into its lines, as [`lines_of`] defines them.
pub fn split_lines(text: &str) -> (lines: Vec<String>)
    ensures
        lines.deep_view() == lines_of(text@),
{
    let mut lines: Vec<String> = Vec::new();
    let mut current: Vec<char> = Vec::new();
    proof {
        assert(current@ + text@.skip(0) == text@);
        assert(lines.deep_view() == Seq::<Seq<char>>::empty());
        assert(Seq::<Seq<char>>::empty() + lines_of(text@) == lines_of(text@));
    }
    for c in it: text.chars()
        invariant
            it.seq() == text@,
            has_no_line_feed(current@),
            lines_of(text@) == lines.deep_view() + lines_of(
                current@ + text@.skip(it.index() as int),
            ),
    {
        let ghost k = it.index() as int;
        let ghost rest = text@.skip(k);
        let ghost done = lines.deep_view();
        assert(rest[0] == c);
        assert(rest.drop_first() == text@.skip(k + 1));
        if c == '\n' {
            proof {
                let whole = current@ + rest;
                lemma_line_end_after(current@, rest);
                assert(whole.take(current@.len() as int) == current@);
                assert(whole.skip(current@.len() as int + 1) == text@.skip(k + 1));
            }
            let n = current.len();
            if n > 0 && current[n - 1] == '\r' {
                current.pop();
            }
            let line = collect_text(&current);
            lines.push(line);
            current = Vec::new();
            proof {
                assert(lines.deep_view() == done.push(line@));
                assert(current@ + text@.skip(k + 1) == text@.skip(k + 1));
                assert(done.push(line@) + lines_of(text@.skip(k + 1)) == done + (seq![line@]
                    + lines_of(text@.skip(k + 1))));
            }
        } else {
            let ghost before = current@;
            current.push(c);
            proof {
                assert(current@ + text@.skip(k + 1) == before + rest);
            }
        }
    }
    proof {
        assert(text@.skip(text@.len() as int) == Seq::<char>::empty());
        assert(current@ + Seq::<char>::empty() == current@);
        lemma_line_end_after(current@, Seq::empty());
    }
    if current.len() > 0 {
        let ghost done = lines.deep_view();
        let line = collect_text(&current);
        lines.push(line);
        proof {
            assert(lines.deep_view() == done.push(line@));
            assert(done.push(line@) == done + seq![current@]);
        }
    } else {
        proof {
            assert(lines.deep_view() + Seq::<Seq<char>>::empty() == lines.deep_view());
        }
    }
    lines
}

/// The characters of a text.
pub fn characters(text: &str) -> (chars: Vec<char>)
    ensures
        chars@ == text@,
{
    let mut chars: Vec<char> = Vec::new();
    for c in it: text.chars()
        invariant
            it.seq() == text@,
            chars@ == text@.take(it.index() as int),
    {
        chars.push(c);
        proof {
            let k = it.index() as int;
            assert(text@.take(k + 1) == text@.take(k).push(c));
        }
    }
    proof {
        assert(text@.take(text@.len() as int) == text@);
    }
    chars
}

/// The text without the white space at its start and at its end.
pub fn trim_text(text: &str) -> (kept: String)
    ensures
        kept@ == trimmed(text@),
{
    let chars = characters(text);
    let n = chars.len();
    let mut start: usize = 0;
    proof {
        assert(chars@.skip(0) == chars@);
    }
    while start < n && chars[start].is_whitespace()
        invariant
            n == chars.len(),
            start <= n,
            without_leading_space(chars@) == without_leading_space(chars@.skip(start as int)),
        decreases n - start,
    {
        proof {
            assert(chars@.skip(start as int).first() == chars@[start as int]);
            assert(chars@.skip(start as int).drop_first() == chars@.skip(start + 1));
        }
        start += 1;
    }
    let ghost led = chars@.skip(start as int);
    proof {
        if start < n {
            assert(led.first() == chars@[start as int]);
        }
        assert(without_leading_space(chars@) == led);
        assert(led == chars@.subrange(start as int, n as int));
    }
    let mut end: usize = n;
    while end > start && chars[end - 1].is_whitespace()
        invariant
            n == chars.len(),
            start <= end <= n,
            without_trailing_space(led) == without_trailing_space(
                chars@.subrange(start as int, end as int),
            ),
            led == chars@.subrange(start as int, n as int),
        decreases end - start,
    {
        proof {
            let part = chars@.subrange(start as int, end as int);
            assert(part.last() == chars@[end - 1]);
            assert(part.drop_last() == chars@.subrange(start as int, end - 1));
        }
        end -= 1;
    }
    let ghost kept_chars = chars@.subrange(start as int, end as int);
    proof {
        if end > start {
            assert(kept_chars.last() == chars@[end - 1]);
        }
        assert(without_trailing_space(led) == kept_chars);
    }
    let mut kept = String::new();
    let mut i: usize = start;
    proof {
        assert(chars@.subrange(start as int, start as int) == Seq::<char>::empty());
    }
    while i < end
        invariant
            start <= i <= end <= chars.len(),
            kept@ == chars@.subrange(start as int, i as int),
        decreases end - i,
    {
        kept.push(chars[i]);
        proof {
            assert(chars@.subrange(start as int, i + 1) == chars@.subrange(
                start as int,
                i as int,
            ).push(chars@[i as int]));
        }
        i += 1;
    }
    kept
}

/// The text made of the given characters.
pub fn collect_text(chars: &Vec<char>) -> (text: String)
    ensures
        text@ == chars@,
{
    let mut text = String::new();
    let mut i: usize = 0;
    while i < chars.len()
        invariant
            i <= chars.len(),
            text@ == chars@.take(i as int),
        decreases chars.len() - i,
    {
        text.push(chars[i]);
        proof {
            assert(chars@.take(i + 1) == chars@.take(i as int).push(chars@[i as int]));
        }
        i += 1;
    }
    proof {
        assert(chars@.take(chars.len() as int) == chars@);
    }
    text
}

} // verus!
