//! Character classes and the string primitives that the lexer is built from.
//!
//! Every executable function here is specified against a spec function on
//! `Seq<char>`, the view of `str` and `String`.

use vstd::prelude::*;
use vstd::std_specs::iter::IteratorSpec;

verus! {

broadcast use vstd::string::group_string_axioms;

/// Whether `c` has the Unicode `White_Space` property.
pub open spec fn whitespace(c: char) -> bool {
    ||| '\u{9}' <= c <= '\u{d}'
    ||| c == ' '
    ||| c == '\u{85}'
    ||| c == '\u{a0}'
    ||| c == '\u{1680}'
    ||| '\u{2000}' <= c <= '\u{200a}'
    ||| c == '\u{2028}'
    ||| c == '\u{2029}'
    ||| c == '\u{202f}'
    ||| c == '\u{205f}'
    ||| c == '\u{3000}'
}

/// The class of whitespace characters.
pub open spec fn space() -> spec_fn(char) -> bool {
    |c: char| whitespace(c)
}

/// The class of characters that are not whitespace.
pub open spec fn non_space() -> spec_fn(char) -> bool {
    |c: char| !whitespace(c)
}

/// The class of characters other than `sep`.
pub open spec fn other_than(sep: char) -> spec_fn(char) -> bool {
    |c: char| c != sep
}

/// Length of the longest prefix of `s` whose characters are all in `class`.
pub open spec fn span(s: Seq<char>, class: spec_fn(char) -> bool) -> nat
    decreases s.len(),
{
    if s.len() > 0 && class(s[0]) {
        1 + span(s.drop_first(), class)
    } else {
        0
    }
}

/// `span` stops at the first character outside the class, and not before.
pub proof fn lemma_span_bounds(s: Seq<char>, class: spec_fn(char) -> bool)
    ensures
        span(s, class) <= s.len(),
        forall|i: int| 0 <= i < span(s, class) ==> class(#[trigger] s[i]),
        span(s, class) < s.len() ==> !class(s[span(s, class) as int]),
    decreases s.len(),
{
    if s.len() > 0 && class(s[0]) {
        let rest = s.drop_first();
        lemma_span_bounds(rest, class);
        assert forall|i: int| 0 <= i < span(s, class) implies class(#[trigger] s[i]) by {
            if i > 0 {
                assert(s[i] == rest[i - 1]);
            }
        }
    }
}

/// A prefix of `n` characters of the class that cannot be extended is the span.
pub proof fn lemma_span_is(s: Seq<char>, class: spec_fn(char) -> bool, n: int)
    requires
        0 <= n <= s.len(),
        forall|i: int| 0 <= i < n ==> class(#[trigger] s[i]),
        n < s.len() ==> !class(s[n]),
    ensures
        span(s, class) == n,
    decreases n,
{
    if n > 0 {
        lemma_span_is(s.drop_first(), class, n - 1);
    }
}

/// `s` without its leading whitespace.
pub open spec fn trimmed_start(s: Seq<char>) -> Seq<char> {
    s.skip(span(s, space()) as int)
}

/// `s` without its trailing whitespace.
pub open spec fn trimmed_end(s: Seq<char>) -> Seq<char> {
    s.take(s.len() - span(s.reverse(), space()))
}

/// `s` without its leading and trailing whitespace.
pub open spec fn trimmed(s: Seq<char>) -> Seq<char> {
    trimmed_end(trimmed_start(s))
}

/// Whether every character of `s` is whitespace.
pub open spec fn blank(s: Seq<char>) -> bool {
    forall|i: int| 0 <= i < s.len() ==> whitespace(#[trigger] s[i])
}

/// Tells whether `c` has the Unicode `White_Space` property.
pub fn is_whitespace(c: char) -> (r: bool)
    ensures
        r == whitespace(c),
{
    ('\u{9}' <= c && c <= '\u{d}') || c == ' ' || c == '\u{85}' || c == '\u{a0}' || c == '\u{1680}'
        || ('\u{2000}' <= c && c <= '\u{200a}') || c == '\u{2028}' || c == '\u{2029}' || c
        == '\u{202f}' || c == '\u{205f}' || c == '\u{3000}'
}

/// If `s` is whitespace up to `start` and from `end` on, and the characters
/// at `start` and before `end` are not whitespace, trimming leaves exactly
/// `s[start..end]`.
pub proof fn lemma_trimmed_is(s: Seq<char>, start: int, end: int)
    requires
        0 <= start < end <= s.len(),
        forall|i: int| 0 <= i < start ==> whitespace(#[trigger] s[i]),
        forall|i: int| end <= i < s.len() ==> whitespace(#[trigger] s[i]),
        !whitespace(s[start]),
        !whitespace(s[end - 1]),
    ensures
        trimmed(s) == s.subrange(start, end),
{
    lemma_span_is(s, space(), start);
    let t = s.skip(start);
    let r = t.reverse();
    lemma_span_is(r, space(), s.len() - end);
}

/// Trimming a blank text leaves nothing.
pub proof fn lemma_trimmed_blank(s: Seq<char>)
    requires
        blank(s),
    ensures
        trimmed(s).len() == 0,
{
    lemma_span_is(s, space(), s.len() as int);
}

/// The trimmed text is a piece of `s` that neither starts nor ends with
/// whitespace, and everything around it in `s` is whitespace.
pub proof fn lemma_trimmed_bounds(s: Seq<char>)
    ensures
        ({
            let start = span(s, space()) as int;
            let end = start + trimmed(s).len();
            &&& end <= s.len()
            &&& trimmed(s) == s.subrange(start, end)
            &&& forall|i: int| 0 <= i < start ==> whitespace(#[trigger] s[i])
            &&& forall|i: int| end <= i < s.len() ==> whitespace(#[trigger] s[i])
            &&& trimmed(s).len() > 0 ==> !whitespace(trimmed(s).first()) && !whitespace(
                trimmed(s).last(),
            )
        }),
{
    let start = span(s, space()) as int;
    lemma_span_bounds(s, space());
    let t = s.skip(start);
    let r = t.reverse();
    lemma_span_bounds(r, space());
    let k = span(r, space()) as int;
    let end = s.len() - k;
    assert forall|i: int| end <= i < s.len() implies whitespace(#[trigger] s[i]) by {
        assert(r[s.len() - 1 - i] == s[i]);
    }
}

/// Trimming takes a blank lead off a text that is empty or has no
/// whitespace at either end, and leaves that text.
pub proof fn lemma_trimmed_after_gap(gap: Seq<char>, body: Seq<char>)
    requires
        blank(gap),
        body.len() > 0 ==> !whitespace(body.first()) && !whitespace(body.last()),
    ensures
        trimmed(gap + body) == body,
{
    let s = gap + body;
    if body.len() == 0 {
        lemma_trimmed_blank(s);
    } else {
        lemma_trimmed_is(s, gap.len() as int, s.len() as int);
    }
}

/// Cuts the leading and trailing whitespace off `s`.
pub fn trim(s: &str) -> (t: &str)
    ensures
        t@ == trimmed(s@),
{
    let len: usize = s.unicode_len();
    let mut start: usize = 0;
    let mut end: usize = 0;
    let mut i: usize = 0;
    for c in it: s.chars()
        invariant
            it.seq() == s@,
            len == s@.len(),
            i == it.index(),
            start <= end <= i,
            end == 0 ==> start == 0,
            forall|j: int| 0 <= j < start ==> whitespace(#[trigger] s@[j]),
            forall|j: int| end <= j < i ==> whitespace(#[trigger] s@[j]),
            end > 0 ==> !whitespace(s@[start as int]) && !whitespace(s@[end - 1]),
    {
        if !is_whitespace(c) {
            if end == 0 {
                start = i;
            }
            end = i + 1;
        }
        i = i + 1;
    }
    proof {
        if end == 0 {
            lemma_trimmed_blank(s@);
        } else {
            lemma_trimmed_is(s@, start as int, end as int);
        }
    }
    s.substring_char(start, end)
}

/// Whether some character of `s` is whitespace.
pub open spec fn has_whitespace(s: Seq<char>) -> bool {
    exists|i: int| 0 <= i < s.len() && whitespace(#[trigger] s[i])
}

/// Tells whether some character of `s` is whitespace.
pub fn contains_whitespace(s: &str) -> (r: bool)
    ensures
        r == has_whitespace(s@),
{
    for c in it: s.chars()
        invariant
            it.seq() == s@,
            forall|j: int| 0 <= j < it.index() ==> !whitespace(#[trigger] s@[j]),
    {
        if is_whitespace(c) {
            return true;
        }
    }
    false
}

/// Tells whether `s` begins with `prefix`.
pub fn starts_with(s: &str, prefix: &str) -> (r: bool)
    ensures
        r == prefix@.is_prefix_of(s@),
{
    let mut rest = s.chars();
    for c in it: prefix.chars()
        invariant
            it.seq() == prefix@,
            it.index() <= s@.len(),
            rest.remaining() == s@.skip(it.index()),
            forall|j: int| 0 <= j < it.index() ==> s@[j] == prefix@[j],
    {
        match rest.next() {
            None => {
                return false;
            },
            Some(d) => {
                if d != c {
                    assert(prefix@.len() <= s@.len() ==> s@.subrange(
                        0,
                        prefix@.len() as int,
                    )[it.index()] != prefix@[it.index()]);
                    return false;
                }
            },
        }
    }
    true
}

/// `s` from its `n`-th character on.
pub fn slice_from(s: &str, n: usize) -> (t: &str)
    requires
        n <= s@.len(),
    ensures
        t@ == s@.skip(n as int),
{
    s.substring_char(n, s.unicode_len())
}

/// What follows `prefix` in `s`; `None` where `s` does not begin with it.
pub open spec fn stripped(s: Seq<char>, prefix: Seq<char>) -> Option<Seq<char>> {
    if prefix.is_prefix_of(s) {
        Some(s.skip(prefix.len() as int))
    } else {
        None
    }
}

/// Takes `prefix` off the front of `s`, if `s` begins with it.
pub fn strip_prefix<'a>(s: &'a str, prefix: &str) -> (rest: Option<&'a str>)
    ensures
        rest.deep_view() == stripped(s@, prefix@),
{
    if starts_with(s, prefix) {
        Some(slice_from(s, prefix.unicode_len()))
    } else {
        None
    }
}

/// The characters of `s` before its first whitespace character.
pub open spec fn first_word(s: Seq<char>) -> Seq<char> {
    s.take(span(s, non_space()) as int)
}

/// What follows the first word of `s`: empty, or starting with whitespace.
pub open spec fn after_first_word(s: Seq<char>) -> Seq<char> {
    s.skip(span(s, non_space()) as int)
}

/// Splits `s` before its first whitespace character.
pub fn split_word(s: &str) -> (r: (&str, &str))
    ensures
        r.0@ == first_word(s@),
        r.1@ == after_first_word(s@),
{
    let len: usize = s.unicode_len();
    let mut i: usize = 0;
    for c in it: s.chars()
        invariant
            it.seq() == s@,
            len == s@.len(),
            i == it.index(),
            forall|j: int| 0 <= j < i ==> !whitespace(#[trigger] s@[j]),
    {
        if is_whitespace(c) {
            proof {
                lemma_span_is(s@, non_space(), i as int);
            }
            return (s.substring_char(0, i), s.substring_char(i, len));
        }
        i = i + 1;
    }
    proof {
        lemma_span_is(s@, non_space(), len as int);
    }
    (s.substring_char(0, len), s.substring_char(len, len))
}

/// The pieces of `s` between occurrences of `sep`: one more than there are
/// occurrences, empty pieces included.
pub open spec fn split_on(s: Seq<char>, sep: char) -> Seq<Seq<char>>
    decreases s.len(),
{
    let n = span(s, other_than(sep)) as int;
    if n < s.len() {
        seq![s.take(n)] + split_on(s.skip(n + 1), sep)
    } else {
        seq![s]
    }
}

/// Splitting at the first separator: the piece before it, then the pieces
/// of what follows it.
pub proof fn lemma_split_on_first(s: Seq<char>, sep: char, n: int)
    requires
        0 <= n < s.len(),
        forall|i: int| 0 <= i < n ==> #[trigger] s[i] != sep,
        s[n] == sep,
    ensures
        split_on(s, sep) == seq![s.take(n)] + split_on(s.skip(n + 1), sep),
{
    lemma_span_is(s, other_than(sep), n);
}

/// A text without separator is its own single piece.
pub proof fn lemma_split_on_none(s: Seq<char>, sep: char)
    requires
        forall|i: int| 0 <= i < s.len() ==> #[trigger] s[i] != sep,
    ensures
        split_on(s, sep) == seq![s],
{
    lemma_span_is(s, other_than(sep), s.len() as int);
}

/// Whether `sep` does not occur in `s`.
pub open spec fn free_of(s: Seq<char>, sep: char) -> bool {
    forall|i: int| 0 <= i < s.len() ==> #[trigger] s[i] != sep
}

/// The texts of `parts` in a row, with `sep` between each two.
pub open spec fn joined(parts: Seq<Seq<char>>, sep: char) -> Seq<char>
    decreases parts.len(),
{
    if parts.len() == 0 {
        Seq::empty()
    } else if parts.len() == 1 {
        parts[0]
    } else {
        parts[0] + seq![sep] + joined(parts.drop_first(), sep)
    }
}

/// Splitting gives at least one piece, no piece holds the separator, and
/// joining the pieces gives the text back.
pub proof fn lemma_split_on_joined(s: Seq<char>, sep: char)
    ensures
        split_on(s, sep).len() >= 1,
        forall|k: int|
            0 <= k < split_on(s, sep).len() ==> free_of(#[trigger] split_on(s, sep)[k], sep),
        joined(split_on(s, sep), sep) == s,
    decreases s.len(),
{
    let n = span(s, other_than(sep)) as int;
    lemma_span_bounds(s, other_than(sep));
    if n < s.len() {
        let rest = s.skip(n + 1);
        lemma_split_on_joined(rest, sep);
        assert((seq![s.take(n)] + split_on(rest, sep)).drop_first() =~= split_on(rest, sep));
    }
}

/// Joining pieces that do not hold the separator, and splitting again,
/// gives the pieces back.
pub proof fn lemma_joined_split_on(parts: Seq<Seq<char>>, sep: char)
    requires
        parts.len() >= 1,
        forall|k: int| 0 <= k < parts.len() ==> free_of(#[trigger] parts[k], sep),
    ensures
        split_on(joined(parts, sep), sep) == parts,
    decreases parts.len(),
{
    if parts.len() == 1 {
        lemma_split_on_none(parts[0], sep);
    } else {
        let rest = parts.drop_first();
        lemma_joined_split_on(rest, sep);
        let s = joined(parts, sep);
        let n = parts[0].len() as int;
        lemma_split_on_first(s, sep, n);
        assert(s.take(n) =~= parts[0]);
        assert(s.skip(n + 1) =~= joined(rest, sep));
    }
}

/// Splits `s` at every occurrence of `sep`.
pub fn split(s: &str, sep: char) -> (parts: Vec<&str>)
    ensures
        parts.deep_view() == split_on(s@, sep),
{
    let len: usize = s.unicode_len();
    let mut parts: Vec<&str> = Vec::new();
    let mut begin: usize = 0;
    let mut i: usize = 0;
    assert(s@.skip(0) =~= s@);
    for c in it: s.chars()
        invariant
            it.seq() == s@,
            len == s@.len(),
            i == it.index(),
            begin <= i,
            forall|j: int| begin <= j < i ==> #[trigger] s@[j] != sep,
            split_on(s@, sep) == parts.deep_view() + split_on(s@.skip(begin as int), sep),
    {
        if c == sep {
            let piece = s.substring_char(begin, i);
            proof {
                let tail = s@.skip(begin as int);
                lemma_split_on_first(tail, sep, i - begin);
                assert(tail.take(i - begin) =~= piece@);
                assert(tail.skip(i - begin + 1) =~= s@.skip(i + 1));
            }
            parts.push(piece);
            begin = i + 1;
        }
        i = i + 1;
    }
    proof {
        lemma_split_on_none(s@.skip(begin as int), sep);
    }
    parts.push(s.substring_char(begin, len));
    parts
}

/// Whether `c` is one of the ASCII digits `0` to `9`.
pub open spec fn digit(c: char) -> bool {
    '0' <= c <= '9'
}

/// The number that the digit `c` stands for.
pub open spec fn digit_value(c: char) -> nat {
    (c as int - '0' as int) as nat
}

/// Whether `s` consists of ASCII digits only.
pub open spec fn all_digits(s: Seq<char>) -> bool {
    forall|i: int| 0 <= i < s.len() ==> digit(#[trigger] s[i])
}

/// The number that the digits of `s` write in base ten; 0 for the empty text.
pub open spec fn decimal(s: Seq<char>) -> nat
    decreases s.len(),
{
    if s.len() == 0 {
        0
    } else {
        10 * decimal(s.drop_last()) + digit_value(s.last())
    }
}

/// The value of `s` read as an unsigned 8-bit number: `s` must be one or
/// more ASCII digits, no sign, writing a number of at most 255.
pub open spec fn parsed_u8(s: Seq<char>) -> Option<u8> {
    if s.len() > 0 && all_digits(s) && decimal(s) <= u8::MAX {
        Some(decimal(s) as u8)
    } else {
        None
    }
}

/// A number is at least what any prefix of its digits writes.
pub proof fn lemma_decimal_prefix(s: Seq<char>, n: int)
    requires
        0 <= n <= s.len(),
    ensures
        decimal(s.take(n)) <= decimal(s),
    decreases s.len() - n,
{
    if n < s.len() {
        lemma_decimal_prefix(s, n + 1);
        assert(s.take(n + 1).drop_last() =~= s.take(n));
    } else {
        assert(s.take(n) =~= s);
    }
}

/// Reads `s` as an unsigned 8-bit number written in ASCII digits.
pub fn parse_u8(s: &str) -> (r: Option<u8>)
    ensures
        r == parsed_u8(s@),
{
    if s.is_empty() {
        return None;
    }
    let mut value: u16 = 0;
    for c in it: s.chars()
        invariant
            it.seq() == s@,
            all_digits(s@.take(it.index())),
            value == decimal(s@.take(it.index())),
            value <= u8::MAX,
    {
        if !('0' <= c && c <= '9') {
            return None;
        }
        let d: u16 = (c as u32 - '0' as u32) as u16;
        proof {
            let now = s@.take(it.index() + 1);
            assert(now.drop_last() =~= s@.take(it.index()));
            lemma_decimal_prefix(s@, it.index() + 1);
        }
        value = value * 10 + d;
        if value > 255 {
            return None;
        }
    }
    assert(s@.take(s@.len() as int) =~= s@);
    Some(value as u8)
}

} // verus!
