//! What the lexer makes of the texts of the grammar, proved of every text.

use crate::lexer::{
    agent_keyword, at_keyword, lexed_at_command, lexed_line, moment_fields, quoted_name,
    script_keyword, Token, TokenView,
};
use crate::text::{
    after_first_word, all_digits, blank, decimal, digit, first_word, free_of, has_whitespace,
    joined, lemma_joined_split_on, lemma_span_is, lemma_split_on_joined, lemma_trimmed_after_gap,
    lemma_trimmed_blank, lemma_trimmed_bounds, non_space, parsed_u8, split_on, stripped,
    trimmed, whitespace,
};
use vstd::prelude::*;

verus! {

/// The sign in front of a moment: `+` for a relative one, nothing otherwise.
pub open spec fn sign(relative: bool) -> Seq<char> {
    if relative {
        seq!['+']
    } else {
        Seq::empty()
    }
}

/// A moment written out: the sign, then the three fields with `:` between.
pub open spec fn moment_text(
    relative: bool,
    hours: Seq<char>,
    minutes: Seq<char>,
    seconds: Seq<char>,
) -> Seq<char> {
    sign(relative) + hours + seq![':'] + minutes + seq![':'] + seconds
}

/// Whether `word` writes a moment: an optional `+` and three fields
/// separated by `:`, each of them digits that write a number of at most 255.
pub open spec fn is_moment_text(word: Seq<char>) -> bool {
    exists|relative: bool, hours: Seq<char>, minutes: Seq<char>, seconds: Seq<char>|
        #[trigger] moment_text(relative, hours, minutes, seconds) == word && parsed_u8(hours)
            is Some && parsed_u8(minutes) is Some && parsed_u8(seconds) is Some
}

/// A written moment is read back: the lexer finds the three numbers that
/// the fields write, and the sign.
pub proof fn theorem_moment_text_is_read(
    relative: bool,
    hours: Seq<char>,
    minutes: Seq<char>,
    seconds: Seq<char>,
)
    requires
        parsed_u8(hours) is Some,
        parsed_u8(minutes) is Some,
        parsed_u8(seconds) is Some,
    ensures
        moment_fields(moment_text(relative, hours, minutes, seconds)) == Some(
            (
                decimal(hours) as u8,
                decimal(minutes) as u8,
                decimal(seconds) as u8,
                relative,
            ),
        ),
{
    let word = moment_text(relative, hours, minutes, seconds);
    let first = sign(relative) + hours;
    let parts = seq![first, minutes, seconds];
    assert(free_of(first, ':') && free_of(minutes, ':') && free_of(seconds, ':'));
    assert(joined(parts, ':') =~= word) by {
        reveal_with_fuel(joined, 3);
    }
    lemma_joined_split_on(parts, ':');
    if relative {
        assert(first.skip(1) =~= hours);
    }
}

/// Only a written moment is read as one: where the lexer finds a moment,
/// the word is the sign and three fields of digits, each at most 255, that
/// write the numbers found.
pub proof fn theorem_moment_read_was_written(word: Seq<char>)
    requires
        moment_fields(word) is Some,
    ensures
        is_moment_text(word),
{
    let parts = split_on(word, ':');
    lemma_split_on_joined(word, ':');
    let relative = parts[0][0] == '+';
    let hours = if relative {
        parts[0].skip(1)
    } else {
        parts[0]
    };
    assert(joined(parts, ':') =~= parts[0] + seq![':'] + parts[1] + seq![':'] + parts[2]) by {
        reveal_with_fuel(joined, 3);
    }
    assert(moment_text(relative, hours, parts[1], parts[2]) == word);
}

/// A word is read as a moment if and only if it writes one.
pub proof fn theorem_moment_grammar(word: Seq<char>)
    ensures
        moment_fields(word) is Some <==> is_moment_text(word),
{
    if moment_fields(word) is Some {
        theorem_moment_read_was_written(word);
    }
    if is_moment_text(word) {
        let (relative, hours, minutes, seconds) = choose|
            relative: bool,
            hours: Seq<char>,
            minutes: Seq<char>,
            seconds: Seq<char>,
        |
            #[trigger] moment_text(relative, hours, minutes, seconds) == word && parsed_u8(hours)
                is Some && parsed_u8(minutes) is Some && parsed_u8(seconds) is Some;
        theorem_moment_text_is_read(relative, hours, minutes, seconds);
    }
}

/// No character of a written moment is whitespace.
pub proof fn lemma_moment_text_is_one_word(
    relative: bool,
    hours: Seq<char>,
    minutes: Seq<char>,
    seconds: Seq<char>,
)
    requires
        all_digits(hours),
        all_digits(minutes),
        all_digits(seconds),
    ensures
        forall|i: int|
            0 <= i < moment_text(relative, hours, minutes, seconds).len() ==> !whitespace(
                #[trigger] moment_text(relative, hours, minutes, seconds)[i],
            ),
{
}

/// An instruction with a well-formed moment: behind `at`, a written moment
/// followed by nothing, or by whitespace and an action, lexes to the moment
/// that was written and the action, trimmed. With `+` in front the moment
/// is relative, with the same numbers.
pub proof fn theorem_well_formed_moment(
    relative: bool,
    hours: Seq<char>,
    minutes: Seq<char>,
    seconds: Seq<char>,
    rest: Seq<char>,
)
    requires
        parsed_u8(hours) is Some,
        parsed_u8(minutes) is Some,
        parsed_u8(seconds) is Some,
        rest.len() == 0 || whitespace(rest[0]),
    ensures
        lexed_at_command(moment_text(relative, hours, minutes, seconds) + rest) == seq![
            TokenView::Moment(
                decimal(hours) as u8,
                decimal(minutes) as u8,
                decimal(seconds) as u8,
                relative,
            ),
            TokenView::UnquotedString(trimmed(rest)),
        ],
{
    let word = moment_text(relative, hours, minutes, seconds);
    let text = word + rest;
    lemma_moment_text_is_one_word(relative, hours, minutes, seconds);
    lemma_span_is(text, non_space(), word.len() as int);
    assert(first_word(text) =~= word);
    assert(after_first_word(text) =~= rest);
    theorem_moment_text_is_read(relative, hours, minutes, seconds);
}

/// An instruction with a malformed moment: where the first word behind `at`
/// does not write a moment (it has not three fields, or a field is empty,
/// is not all digits, or writes a number over 255), all of the text becomes
/// one `Confusion`, and neither a moment nor an action comes out.
pub proof fn theorem_malformed_moment(text: Seq<char>)
    requires
        !is_moment_text(first_word(text)),
    ensures
        lexed_at_command(text) == seq![TokenView::Confusion(text)],
{
    theorem_moment_grammar(first_word(text));
}

/// The field of `word` at `k`, without the sign: the text that has to
/// write a number.
pub open spec fn field(word: Seq<char>, k: int) -> Seq<char> {
    let part = split_on(word, ':')[k];
    if k == 0 && part.len() > 0 && part[0] == '+' {
        part.skip(1)
    } else {
        part
    }
}

/// What makes a word malformed: a number of fields other than three, or a
/// field that is empty, holds a character that is no digit, or writes a
/// number over 255. Each of these is enough.
pub proof fn theorem_malformed_moment_causes(word: Seq<char>, k: int)
    requires
        split_on(word, ':').len() != 3 || (0 <= k < 3 && parsed_u8(field(word, k)) is None),
    ensures
        !is_moment_text(word),
{
    theorem_moment_grammar(word);
}

/// A `Moment` token comes only out of an `at` line whose first word behind
/// `at` writes a moment, and it is the second token of the line: no other
/// line yields one.
pub proof fn theorem_moment_token_origin(line: Seq<char>, i: int)
    requires
        0 <= i < lexed_line(line).len(),
        lexed_line(line)[i] is Moment,
    ensures
        i == 1,
        stripped(trimmed(line), at_keyword()) matches Some(rest) && is_moment_text(
            first_word(trimmed(rest)),
        ),
{
    theorem_moment_grammar(first_word(trimmed(trimmed(line).skip(2))));
}

/// A line with a malformed moment: `at`, and a first word behind it that
/// does not write a moment. The line lexes to `At` and one `Confusion` that
/// holds all that follows `at`, trimmed; no token of the line is a `Moment`.
pub proof fn theorem_malformed_moment_line(line: Seq<char>, rest: Seq<char>)
    requires
        stripped(trimmed(line), at_keyword()) == Some(rest),
        !is_moment_text(first_word(trimmed(rest))),
    ensures
        lexed_line(line) == seq![TokenView::At, TokenView::Confusion(trimmed(rest))],
        forall|i: int| 0 <= i < lexed_line(line).len() ==> !(lexed_line(line)[i] is Moment),
{
    lemma_at_is_not_agent(trimmed(line));
    theorem_malformed_moment(trimmed(rest));
}

/// A text that starts with `at` does not start with `agent`, and is not
/// empty.
proof fn lemma_at_is_not_agent(text: Seq<char>)
    requires
        at_keyword().is_prefix_of(text),
    ensures
        !agent_keyword().is_prefix_of(text),
        text.len() >= 2,
{
}

/// A text that starts with `script` starts neither with `agent` nor with
/// `at`, and is not empty.
proof fn lemma_script_is_not_agent_or_at(text: Seq<char>)
    requires
        script_keyword().is_prefix_of(text),
    ensures
        !agent_keyword().is_prefix_of(text),
        !at_keyword().is_prefix_of(text),
        text.len() >= 6,
{
}

/// A line with a well-formed moment: `at`, whitespace or nothing, a written
/// moment, and then nothing or whitespace and an action. Whatever
/// whitespace stands around the line, it lexes to `At`, the moment that was
/// written, and the action, trimmed.
pub proof fn theorem_at_line(
    line: Seq<char>,
    gap: Seq<char>,
    relative: bool,
    hours: Seq<char>,
    minutes: Seq<char>,
    seconds: Seq<char>,
    rest: Seq<char>,
)
    requires
        trimmed(line) == at_keyword() + gap + moment_text(relative, hours, minutes, seconds)
            + rest,
        blank(gap),
        parsed_u8(hours) is Some,
        parsed_u8(minutes) is Some,
        parsed_u8(seconds) is Some,
        rest.len() == 0 || whitespace(rest[0]),
    ensures
        lexed_line(line) == seq![
            TokenView::At,
            TokenView::Moment(
                decimal(hours) as u8,
                decimal(minutes) as u8,
                decimal(seconds) as u8,
                relative,
            ),
            TokenView::UnquotedString(trimmed(rest)),
        ],
{
    let text = trimmed(line);
    let word = moment_text(relative, hours, minutes, seconds);
    let body = word + rest;
    lemma_at_is_not_agent(text);
    assert(text.skip(2) =~= gap + body);
    lemma_trimmed_bounds(line);
    lemma_moment_text_is_one_word(relative, hours, minutes, seconds);
    lemma_trimmed_after_gap(gap, body);
    theorem_well_formed_moment(relative, hours, minutes, seconds, rest);
}

/// An agent declaration: `agent`, whitespace or nothing, and a name without
/// whitespace in it. Whatever whitespace stands around the line, it lexes
/// to `Agent` and the name.
pub proof fn theorem_agent_line(line: Seq<char>, gap: Seq<char>, name: Seq<char>)
    requires
        trimmed(line) == agent_keyword() + gap + name,
        blank(gap),
        !has_whitespace(name),
    ensures
        lexed_line(line) == seq![TokenView::Agent, TokenView::Name(name)],
{
    assert(trimmed(line).skip(5) =~= gap + name);
    lemma_trimmed_after_gap(gap, name);
}

/// An agent declaration with a bad name: `agent`, whitespace or nothing,
/// and a text with whitespace inside it. The line lexes to `Agent` and one
/// `Confusion` that holds the text; no name comes out.
pub proof fn theorem_agent_line_with_bad_name(line: Seq<char>, gap: Seq<char>, name: Seq<char>)
    requires
        trimmed(line) == agent_keyword() + gap + name,
        blank(gap),
        has_whitespace(name),
        !whitespace(name.first()),
    ensures
        lexed_line(line) == seq![TokenView::Agent, TokenView::Confusion(name)],
{
    assert(trimmed(line).skip(5) =~= gap + name);
    lemma_trimmed_bounds(line);
    lemma_trimmed_after_gap(gap, name);
}

/// A script declaration: `script`, whitespace or nothing, and a name
/// between double quotes, with no double quote in it. Whatever whitespace
/// stands around the line, it lexes to `Script` and the name.
pub proof fn theorem_script_line(line: Seq<char>, gap: Seq<char>, name: Seq<char>)
    requires
        trimmed(line) == script_keyword() + gap + seq!['"'] + name + seq!['"'],
        blank(gap),
        free_of(name, '"'),
    ensures
        lexed_line(line) == seq![TokenView::Script, TokenView::QuotedString(name)],
{
    let text = trimmed(line);
    let body = seq!['"'] + name + seq!['"'];
    lemma_script_is_not_agent_or_at(text);
    assert(text.skip(6) =~= gap + body);
    lemma_trimmed_after_gap(gap, body);
    theorem_quoted_name(name);
}

/// A name between double quotes is read back, if no double quote is in it.
pub proof fn theorem_quoted_name(name: Seq<char>)
    requires
        free_of(name, '"'),
    ensures
        quoted_name(seq!['"'] + name + seq!['"']) == Some(name),
{
    let nothing = Seq::<char>::empty();
    let parts = seq![nothing, name, nothing];
    assert(joined(parts, '"') =~= seq!['"'] + name + seq!['"']) by {
        reveal_with_fuel(joined, 3);
    }
    lemma_joined_split_on(parts, '"');
}

/// Only a name between double quotes is read as one: where the lexer finds
/// a quoted name, the text is a double quote, the name and a double quote,
/// and the name holds no double quote.
pub proof fn theorem_quoted_name_was_quoted(text: Seq<char>)
    requires
        quoted_name(text) is Some,
    ensures
        text == seq!['"'] + quoted_name(text)->0 + seq!['"'],
        free_of(quoted_name(text)->0, '"'),
{
    let parts = split_on(text, '"');
    lemma_split_on_joined(text, '"');
    assert(joined(parts, '"') =~= parts[0] + seq!['"'] + parts[1] + seq!['"'] + parts[2]) by {
        reveal_with_fuel(joined, 3);
    }
}

/// A line of nothing but whitespace, the empty line included, lexes to
/// `Silence` alone, and no other line does.
pub proof fn theorem_blank_line(line: Seq<char>)
    ensures
        blank(line) <==> lexed_line(line) == seq![TokenView::Silence],
{
    if blank(line) {
        lemma_trimmed_blank(line);
    }
    if lexed_line(line) == seq![TokenView::Silence] {
        assert(lexed_line(line)[0] is Silence);
        lemma_trimmed_bounds(line);
    }
}

/// Lexing is a function of the characters of the line: whatever two runs of
/// the lexer make of the same line, they make the same tokens.
pub proof fn theorem_same_line_same_tokens(
    line: Seq<char>,
    again: Seq<char>,
    first: Vec<Token>,
    second: Vec<Token>,
)
    requires
        line == again,
        first.deep_view() == lexed_line(line),
        second.deep_view() == lexed_line(again),
    ensures
        first.deep_view() == second.deep_view(),
        first.len() == second.len(),
        forall|i: int| 0 <= i < first.len() ==> first[i]@ == second[i]@,
{
    assert(second.deep_view().len() == second.len());
    assert forall|i: int| 0 <= i < first.len() implies first[i]@ == second[i]@ by {
        assert(second.deep_view()[i] == second[i]@);
    }
}

} // verus!
