//! The lexer: one line of text in, its tokens out.
//!
//! A line is lexed on its own, with no state carried from line to line, and
//! lexing never fails: text that fits no rule comes out as a
//! [`Token::Confusion`] that holds it.

use crate::text::{
    after_first_word, contains_whitespace, first_word, has_whitespace, parse_u8, parsed_u8,
    slice_from, split, split_on, split_word, strip_prefix, stripped, trim, trimmed,
};
use vstd::prelude::*;
use vstd::string::StrSliceExecFns;

verus! {

/// One lexical unit of a line.
#[derive(Debug, PartialEq, Eq)]
pub enum Token {
    /// The keyword `agent`.
    Agent,
    /// The keyword `at`.
    At,
    /// Text that the lexer could not interpret, kept as it was.
    Confusion(String),
    /// Hours, minutes and seconds, and whether they count from now.
    Moment(u8, u8, u8, bool),
    /// The name of an agent.
    Name(String),
    /// The keyword `script`.
    Script,
    /// A blank line.
    Silence,
    /// The text between two double quotes.
    QuotedString(String),
    /// The action that follows the moment of an `at` line.
    UnquotedString(String),
}

/// What a [`Token`] is, with its text as a sequence of characters.
pub enum TokenView {
    Agent,
    At,
    Confusion(Seq<char>),
    Moment(u8, u8, u8, bool),
    Name(Seq<char>),
    Script,
    Silence,
    QuotedString(Seq<char>),
    UnquotedString(Seq<char>),
}

impl View for Token {
    type V = TokenView;

    open spec fn view(&self) -> TokenView {
        match self {
            Token::Agent => TokenView::Agent,
            Token::At => TokenView::At,
            Token::Confusion(text) => TokenView::Confusion(text@),
            Token::Moment(h, m, s, relative) => TokenView::Moment(*h, *m, *s, *relative),
            Token::Name(text) => TokenView::Name(text@),
            Token::Script => TokenView::Script,
            Token::Silence => TokenView::Silence,
            Token::QuotedString(text) => TokenView::QuotedString(text@),
            Token::UnquotedString(text) => TokenView::UnquotedString(text@),
        }
    }
}

impl DeepView for Token {
    type V = TokenView;

    open spec fn deep_view(&self) -> TokenView {
        self@
    }
}

impl Clone for Token {
    fn clone(&self) -> (copy: Self)
        ensures
            copy@ == self@,
    {
        match self {
            Token::Agent => Token::Agent,
            Token::At => Token::At,
            Token::Confusion(text) => Token::Confusion(text.clone()),
            Token::Moment(h, m, s, relative) => Token::Moment(*h, *m, *s, *relative),
            Token::Name(text) => Token::Name(text.clone()),
            Token::Script => Token::Script,
            Token::Silence => Token::Silence,
            Token::QuotedString(text) => Token::QuotedString(text.clone()),
            Token::UnquotedString(text) => Token::UnquotedString(text.clone()),
        }
    }
}

/// The keyword that opens an agent declaration.
pub open spec fn agent_keyword() -> Seq<char> {
    seq!['a', 'g', 'e', 'n', 't']
}

/// The keyword that opens a scheduled instruction.
pub open spec fn at_keyword() -> Seq<char> {
    seq!['a', 't']
}

/// The keyword that opens a script declaration.
pub open spec fn script_keyword() -> Seq<char> {
    seq!['s', 'c', 'r', 'i', 'p', 't']
}

/// The tokens of what follows `agent`: the name, unless it holds whitespace.
/// A text with whitespace in it is no name and comes out as one `Confusion`
/// alone; the empty text is a name.
pub open spec fn lexed_name(text: Seq<char>) -> Seq<TokenView> {
    if has_whitespace(text) {
        seq![TokenView::Confusion(text)]
    } else {
        seq![TokenView::Name(text)]
    }
}

/// The name that `text` quotes: `text` is a double quote, the name, and a
/// double quote, with no further double quote inside and nothing around.
/// There are no escapes.
pub open spec fn quoted_name(text: Seq<char>) -> Option<Seq<char>> {
    let parts = split_on(text, '"');
    if parts.len() == 3 && parts[0].len() == 0 && parts[2].len() == 0 {
        Some(parts[1])
    } else {
        None
    }
}

/// The tokens of what follows `script`: the quoted name, or the whole text
/// as a `Confusion` where it is not one quoted name.
pub open spec fn lexed_quoted_string(text: Seq<char>) -> Seq<TokenView> {
    match quoted_name(text) {
        Some(name) => seq![TokenView::QuotedString(name)],
        None => seq![TokenView::Confusion(text)],
    }
}

/// Hours, minutes, seconds and the relative flag that `word` writes.
///
/// `word` must split on `:` into exactly three non-empty fields. A `+` in
/// front of the first field makes the moment relative and is not part of the
/// number. Each field must then read as an unsigned 8-bit number.
pub open spec fn moment_fields(word: Seq<char>) -> Option<(u8, u8, u8, bool)> {
    let parts = split_on(word, ':');
    if parts.len() == 3 && parts[0].len() > 0 && parts[1].len() > 0 && parts[2].len() > 0 {
        let relative = parts[0][0] == '+';
        let hours = if relative {
            parts[0].skip(1)
        } else {
            parts[0]
        };
        match (parsed_u8(hours), parsed_u8(parts[1]), parsed_u8(parts[2])) {
            (Some(h), Some(m), Some(s)) => Some((h, m, s, relative)),
            _ => None,
        }
    } else {
        None
    }
}

/// The token for the moment that `text` starts with: the moment that its
/// first word writes, or the whole of `text` as a `Confusion`.
pub open spec fn lexed_moment(text: Seq<char>) -> TokenView {
    match moment_fields(first_word(text)) {
        Some((h, m, s, relative)) => TokenView::Moment(h, m, s, relative),
        None => TokenView::Confusion(text),
    }
}

/// What is left of `text` behind its moment, trimmed; `None` where `text`
/// starts with no moment.
pub open spec fn after_moment(text: Seq<char>) -> Option<Seq<char>> {
    if moment_fields(first_word(text)) is Some {
        Some(trimmed(after_first_word(text)))
    } else {
        None
    }
}

/// The tokens of what follows `at`: the moment and the action behind it, or
/// one `Confusion` and nothing more.
pub open spec fn lexed_at_command(text: Seq<char>) -> Seq<TokenView> {
    match after_moment(text) {
        Some(action) => seq![lexed_moment(text), TokenView::UnquotedString(action)],
        None => seq![lexed_moment(text)],
    }
}

/// The tokens of a line. The line is trimmed first; then, in this order,
/// the first rule that fits decides:
///
/// - nothing is left: `Silence`;
/// - it starts with `agent`: `Agent`, then the name behind it;
/// - it starts with `at`: `At`, then the moment and the action;
/// - it starts with `script`: `Script`, then the quoted name;
/// - otherwise the trimmed line as a `Confusion`.
///
/// A keyword needs no whitespace behind it, and what follows it is trimmed
/// before it is lexed.
pub open spec fn lexed_line(line: Seq<char>) -> Seq<TokenView> {
    let text = trimmed(line);
    if text.len() == 0 {
        seq![TokenView::Silence]
    } else if let Some(rest) = stripped(text, agent_keyword()) {
        seq![TokenView::Agent] + lexed_name(trimmed(rest))
    } else if let Some(rest) = stripped(text, at_keyword()) {
        seq![TokenView::At] + lexed_at_command(trimmed(rest))
    } else if let Some(rest) = stripped(text, script_keyword()) {
        seq![TokenView::Script] + lexed_quoted_string(trimmed(rest))
    } else {
        seq![TokenView::Confusion(text)]
    }
}

/// Appends `token` to `buf`.
fn emit(buf: &mut Vec<Token>, token: Token)
    ensures
        final(buf).deep_view() == old(buf).deep_view().push(token@),
{
    buf.push(token);
}

/// Lexes the name of an agent, the text behind `agent`.
pub fn read_name(buf: &mut Vec<Token>, line: &str)
    ensures
        final(buf).deep_view() == old(buf).deep_view() + lexed_name(line@),
{
    if contains_whitespace(line) {
        emit(buf, Token::Confusion(line.to_owned()));
    } else {
        emit(buf, Token::Name(line.to_owned()));
    }
}

/// Lexes the quoted name of a script, the text behind `script`.
pub fn read_quoted_string(buf: &mut Vec<Token>, line: &str)
    ensures
        final(buf).deep_view() == old(buf).deep_view() + lexed_quoted_string(line@),
{
    let parts = split(line, '"');
    if parts.len() == 3 && parts[0].is_empty() && parts[2].is_empty() {
        emit(buf, Token::QuotedString(parts[1].to_owned()));
    } else {
        emit(buf, Token::Confusion(line.to_owned()));
    }
}

/// Lexes the moment that `line` starts with, and returns what follows it,
/// trimmed. Where `line` starts with no moment, all of it becomes one
/// `Confusion` and nothing is returned.
pub fn tokenize_moment<'a>(buf: &mut Vec<Token>, line: &'a str) -> (rest: Option<&'a str>)
    ensures
        final(buf).deep_view() == old(buf).deep_view().push(lexed_moment(line@)),
        rest.deep_view() == after_moment(line@),
{
    let (word, rest) = split_word(line);
    let parts = split(word, ':');
    if parts.len() == 3 && !parts[0].is_empty() && !parts[1].is_empty() && !parts[2].is_empty() {
        let relative = parts[0].get_char(0) == '+';
        let hours = if relative {
            slice_from(parts[0], 1)
        } else {
            parts[0]
        };
        match (parse_u8(hours), parse_u8(parts[1]), parse_u8(parts[2])) {
            (Some(h), Some(m), Some(s)) => {
                emit(buf, Token::Moment(h, m, s, relative));
                return Some(trim(rest));
            },
            _ => {},
        }
    }
    emit(buf, Token::Confusion(line.to_owned()));
    None
}

/// Lexes the moment and the action of an instruction, the text behind `at`.
pub fn tokenize_at_command(buf: &mut Vec<Token>, line: &str)
    ensures
        final(buf).deep_view() == old(buf).deep_view() + lexed_at_command(line@),
{
    if let Some(action) = tokenize_moment(buf, line) {
        emit(buf, Token::UnquotedString(action.to_owned()));
    }
}

/// Lexes `line` and appends its tokens to `buf`.
pub fn tokenize_line_buf(buf: &mut Vec<Token>, line: &str)
    ensures
        final(buf).deep_view() == old(buf).deep_view() + lexed_line(line@),
{
    proof {
        reveal_strlit("agent");
        reveal_strlit("at");
        reveal_strlit("script");
    }
    let line = trim(line);
    if line.is_empty() {
        emit(buf, Token::Silence);
    } else if let Some(rest) = strip_prefix(line, "agent") {
        emit(buf, Token::Agent);
        read_name(buf, trim(rest));
    } else if let Some(rest) = strip_prefix(line, "at") {
        emit(buf, Token::At);
        tokenize_at_command(buf, trim(rest));
    } else if let Some(rest) = strip_prefix(line, "script") {
        emit(buf, Token::Script);
        read_quoted_string(buf, trim(rest));
    } else {
        emit(buf, Token::Confusion(line.to_owned()));
    }
}

/// Lexes one line of text.
///
/// Every line gives at least one token.
pub fn tokenize_line(line: &str) -> (tokens: Vec<Token>)
    ensures
        tokens.deep_view() == lexed_line(line@),
        tokens.len() > 0,
{
    let mut buf: Vec<Token> = Vec::new();
    tokenize_line_buf(&mut buf, line);
    buf
}

} // verus!
