//! Character-level helpers: the content fingerprint, indentation runs and
//! the final trim of the output buffer.

use vstd::prelude::*;
use vstd::utf8::*;

verus! {

/// The four characters that the content fingerprint ignores.
pub open spec fn is_blank(c: char) -> bool {
    c == ' ' || c == '\t' || c == '\r' || c == '\n'
}

/// The content fingerprint of a text: how many of its characters are
/// neither space, tab, carriage return nor newline.
pub open spec fn content_count(s: Seq<char>) -> nat
    decreases s.len(),
{
    if s.len() == 0 {
        0
    } else {
        content_count(s.drop_last()) + if is_blank(s.last()) { 0nat } else { 1nat }
    }
}

/// The fingerprint of a concatenation is the sum of the fingerprints.
pub proof fn lemma_content_count_add(a: Seq<char>, b: Seq<char>)
    ensures
        content_count(a + b) == content_count(a) + content_count(b),
    decreases b.len(),
{
    if b.len() == 0 {
        assert(a + b =~= a);
    } else {
        assert((a + b).drop_last() =~= a + b.drop_last());
        lemma_content_count_add(a, b.drop_last());
    }
}

/// A text has at most as many characters as its UTF-8 encoding has bytes.
pub proof fn lemma_chars_fit_in_bytes(s: Seq<char>)
    ensures
        s.len() <= encode_utf8(s).len(),
    decreases s.len(),
{
    if s.len() > 0 {
        lemma_chars_fit_in_bytes(s.drop_first());
    }
}

/// Tells whether `c` is one of the characters that the fingerprint ignores.
pub fn is_blank_char(c: char) -> (b: bool)
    ensures
        b == is_blank(c),
{
    c == ' ' || c == '\t' || c == '\r' || c == '\n'
}

/// Appending `c` to `a + b` is appending `b + c` to `a`.
pub proof fn lemma_append_assoc(a: Seq<char>, b: Seq<char>, c: Seq<char>)
    ensures
        (a + b) + c == a + (b + c),
{
    assert((a + b) + c =~= a + (b + c));
}

/// A run of `n` spaces.
pub open spec fn spaces(n: nat) -> Seq<char> {
    Seq::new(n, |i: int| ' ')
}

/// A line break followed by `indent` spaces.
pub open spec fn line_break(indent: nat) -> Seq<char> {
    seq!['\n'] + spaces(indent)
}

/// Appends one space to `output`.
pub fn push_space(output: &mut String)
    ensures
        final(output)@ == old(output)@ + seq![' '],
{
    proof {
        reveal_strlit(" ");
    }
    output.append(" ");
    assert(output@ =~= old(output)@ + seq![' ']);
}

/// Appends one newline to `output`.
pub fn push_newline(output: &mut String)
    ensures
        final(output)@ == old(output)@ + seq!['\n'],
{
    proof {
        reveal_strlit("\n");
    }
    output.append("\n");
    assert(output@ =~= old(output)@ + seq!['\n']);
}

/// Appends a line break and `indent` spaces to `output`.
pub fn push_line_break(output: &mut String, indent: usize)
    ensures
        final(output)@ == old(output)@ + line_break(indent as nat),
{
    proof {
        reveal_strlit("\n");
        reveal_strlit(" ");
    }
    output.append("\n");
    let mut i: usize = 0;
    while i < indent
        invariant
            i <= indent,
            " "@ == seq![' '],
            output@ == old(output)@ + seq!['\n'] + spaces(i as nat),
        decreases indent - i,
    {
        output.append(" ");
        i = i + 1;
        assert(output@ =~= old(output)@ + seq!['\n'] + spaces(i as nat));
    }
    assert(output@ =~= old(output)@ + line_break(indent as nat));
}

/// The characters that the final trim removes from both ends of the
/// output: those with the Unicode property White_Space.
pub open spec fn is_whitespace(c: char) -> bool {
    ||| '\u{9}' <= c <= '\u{D}'
    ||| c == ' '
    ||| c == '\u{85}'
    ||| c == '\u{A0}'
    ||| c == '\u{1680}'
    ||| '\u{2000}' <= c <= '\u{200A}'
    ||| c == '\u{2028}'
    ||| c == '\u{2029}'
    ||| c == '\u{202F}'
    ||| c == '\u{205F}'
    ||| c == '\u{3000}'
}

/// Tells whether the final trim removes `c`.
pub fn is_whitespace_char(c: char) -> (b: bool)
    ensures
        b == is_whitespace(c),
{
    ('\u{9}' <= c && c <= '\u{D}') || c == ' ' || c == '\u{85}' || c == '\u{A0}' || c
        == '\u{1680}' || ('\u{2000}' <= c && c <= '\u{200A}') || c == '\u{2028}' || c
        == '\u{2029}' || c == '\u{202F}' || c == '\u{205F}' || c == '\u{3000}'
}

/// `s` without its leading whitespace.
pub open spec fn trim_start(s: Seq<char>) -> Seq<char>
    decreases s.len(),
{
    if s.len() > 0 && is_whitespace(s.first()) {
        trim_start(s.drop_first())
    } else {
        s
    }
}

/// `s` without its trailing whitespace.
pub open spec fn trim_end(s: Seq<char>) -> Seq<char>
    decreases s.len(),
{
    if s.len() > 0 && is_whitespace(s.last()) {
        trim_end(s.drop_last())
    } else {
        s
    }
}

/// `s` without its leading and trailing whitespace.
pub open spec fn trim(s: Seq<char>) -> Seq<char> {
    trim_end(trim_start(s))
}

/// Where the first `k` characters of `s` are whitespace and the next one is
/// not, `trim_start` removes exactly those `k`.
pub proof fn lemma_trim_start_skip(s: Seq<char>, k: int)
    requires
        0 <= k <= s.len(),
        forall|j: int| 0 <= j < k ==> is_whitespace(#[trigger] s[j]),
        k < s.len() ==> !is_whitespace(s[k]),
    ensures
        trim_start(s) == s.skip(k),
    decreases k,
{
    if k == 0 {
        assert(s.skip(0) =~= s);
    } else {
        let rest = s.drop_first();
        assert forall|j: int| 0 <= j < k - 1 implies is_whitespace(#[trigger] rest[j]) by {
            assert(rest[j] == s[j + 1]);
        }
        lemma_trim_start_skip(rest, k - 1);
        assert(rest.skip(k - 1) =~= s.skip(k));
    }
}

/// Where the characters of `s` from index `e` on are whitespace and the one
/// before is not, `trim_end` keeps exactly the first `e`.
pub proof fn lemma_trim_end_take(s: Seq<char>, e: int)
    requires
        0 <= e <= s.len(),
        forall|j: int| e <= j < s.len() ==> is_whitespace(#[trigger] s[j]),
        e > 0 ==> !is_whitespace(s[e - 1]),
    ensures
        trim_end(s) == s.take(e),
    decreases s.len() - e,
{
    if e == s.len() {
        assert(s.take(e) =~= s);
    } else {
        let rest = s.drop_last();
        lemma_trim_end_take(rest, e);
        assert(rest.take(e) =~= s.take(e));
    }
}

/// `text` without its leading and trailing whitespace.
pub fn trim_text(text: &str) -> (trimmed: String)
    ensures
        trimmed@ == trim(text@),
{
    let limit = text.as_bytes().len();
    proof {
        lemma_chars_fit_in_bytes(text@);
    }
    let mut first: usize = 0;
    let mut last: usize = 0;
    let mut seen = false;
    let mut i: usize = 0;
    for c in it: text.chars()
        invariant
            it.seq() == text@,
            text@.len() <= limit,
            i == it.index(),
            forall|j: int| 0 <= j < (if seen { first as int } else { i as int }) ==> is_whitespace(
                #[trigger] text@[j],
            ),
            seen ==> first < last <= i && !is_whitespace(text@[first as int]) && !is_whitespace(
                text@[last - 1],
            ),
            seen ==> forall|j: int| last <= j < i ==> is_whitespace(#[trigger] text@[j]),
    {
        if !is_whitespace_char(c) {
            if !seen {
                first = i;
                seen = true;
            }
            last = i + 1;
        }
        i = i + 1;
    }
    if !seen {
        proof {
            lemma_trim_start_skip(text@, text@.len() as int);
            assert(text@.skip(text@.len() as int) =~= Seq::<char>::empty());
        }
        return String::new();
    }
    let kept = text.substring_char(first, last);
    proof {
        let s = text@;
        lemma_trim_start_skip(s, first as int);
        let t = s.skip(first as int);
        assert forall|j: int| last - first <= j < t.len() implies is_whitespace(
            #[trigger] t[j],
        ) by {
            assert(t[j] == s[j + first]);
        }
        assert(t[last - first - 1] == s[last - 1]);
        lemma_trim_end_take(t, last - first);
        assert(t.take(last - first) =~= s.subrange(first as int, last as int));
    }
    kept.to_owned()
}

/// The text that the byte span from `start` to `end` of `source` holds, where
/// the span lies in the source and cuts no character in two.
pub open spec fn span_text(source: Seq<char>, start: int, end: int) -> Option<Seq<char>> {
    let bytes = encode_utf8(source);
    if 0 <= start <= end <= bytes.len() && is_char_boundary(bytes, start) && is_char_boundary(
        bytes,
        end,
    ) {
        Some(decode_utf8(bytes.subrange(start, end)))
    } else {
        None
    }
}

/// Takes the byte span from `start` to `end` out of `source`.
pub fn slice_text<'a>(source: &'a str, start: usize, end: usize) -> (text: Option<&'a str>)
    ensures
        match text {
            Some(t) => span_text(source@, start as int, end as int) == Some(t@),
            None => span_text(source@, start as int, end as int) is None,
        },
{
    let ghost bytes = encode_utf8(source@);
    proof {
        encode_utf8_valid_utf8(source@);
    }
    let len = source.as_bytes().len();
    if start > end || end > len || !source.is_char_boundary(start) || !source.is_char_boundary(
        end,
    ) {
        return None;
    }
    let (head, _) = source.split_at(end);
    proof {
        valid_utf8_split(bytes, end as int);
        let front = bytes.subrange(0, end as int);
        if start < end {
            is_char_boundary_iff_not_is_continuation_byte(bytes, start as int);
            is_char_boundary_iff_not_is_continuation_byte(front, start as int);
        } else {
            is_char_boundary_start_end_of_seq(front);
        }
    }
    let (_, text) = head.split_at(start);
    proof {
        let front = bytes.subrange(0, end as int);
        assert(front.subrange(start as int, front.len() as int) =~= bytes.subrange(
            start as int,
            end as int,
        ));
        encode_utf8_decode_utf8(text@);
    }
    Some(text)
}

/// What `trim_start` leaves does not start with whitespace.
pub proof fn lemma_trim_start_done(s: Seq<char>)
    ensures
        trim_start(s).len() > 0 ==> !is_whitespace(trim_start(s).first()),
        trim_start(trim_start(s)) == trim_start(s),
    decreases s.len(),
{
    if s.len() > 0 && is_whitespace(s.first()) {
        lemma_trim_start_done(s.drop_first());
    }
}

/// What `trim_end` leaves does not end with whitespace, and starts as the
/// text did where that did not start with whitespace.
pub proof fn lemma_trim_end_done(s: Seq<char>)
    ensures
        trim_end(s).len() > 0 ==> !is_whitespace(trim_end(s).last()),
        trim_end(trim_end(s)) == trim_end(s),
        s.len() > 0 && !is_whitespace(s.first()) ==> trim_end(s).len() > 0 && trim_end(s).first()
            == s.first(),
    decreases s.len(),
{
    if s.len() > 0 && is_whitespace(s.last()) {
        lemma_trim_end_done(s.drop_last());
    }
}

/// A trimmed text neither starts nor ends with whitespace, and trimming it
/// again changes nothing.
pub proof fn lemma_trim_idempotent(s: Seq<char>)
    ensures
        trim(s).len() > 0 ==> !is_whitespace(trim(s).first()) && !is_whitespace(trim(s).last()),
        trim(trim(s)) == trim(s),
{
    lemma_trim_start_done(s);
    lemma_trim_end_done(trim_start(s));
}

/// A single blank character carries no content.
pub proof fn lemma_blank_character(c: char)
    requires
        is_blank(c),
    ensures
        content_count(seq![c]) == 0,
{
    assert(seq![c].drop_last() =~= Seq::<char>::empty());
    assert(seq![c].last() == c);
    reveal_with_fuel(content_count, 2);
}

/// Indentation and line breaks carry no content.
pub proof fn lemma_line_break_blank(indent: nat)
    ensures
        content_count(spaces(indent)) == 0,
        content_count(line_break(indent)) == 0,
    decreases indent,
{
    if indent > 0 {
        lemma_line_break_blank((indent - 1) as nat);
        assert(spaces(indent).drop_last() =~= spaces((indent - 1) as nat));
    }
    lemma_blank_character('\n');
    lemma_content_count_add(seq!['\n'], spaces(indent));
}

} // verus!
