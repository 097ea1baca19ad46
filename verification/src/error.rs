//! Diagnostics of the parser and the type pass.

use vstd::prelude::*;
use vstd::string::StringExecFns;
use crate::text::{decimal_chars, decimal_digits, string_from_chars, texts_of};
use crate::tokens::{Token, TokenView};
use crate::types::{Type, TypeView};

verus! {

/// What can go wrong while a source text is parsed and typed.
#[derive(Debug, PartialEq)]
pub enum ParserErr {
    /// A token stands where the grammar has no use for it.
    UnexpectedToken { line: usize, column: usize, token: Token },
    /// A particular token was required and another one was found.
    ExpectedToken { line: usize, column: usize, expected: Token, found: Token },
    /// The tokens ran out where the grammar requires one more.
    UnexpectedEOF,
    /// An expression was assigned to an identifier declared with another
    /// type.
    UnmatchedTypes { predicted: Type, declared: Type },
}

/// Mathematical value of a [`ParserErr`].
pub enum ParserErrView {
    UnexpectedToken { line: int, column: int, token: TokenView },
    ExpectedToken { line: int, column: int, expected: TokenView, found: TokenView },
    UnexpectedEOF,
    UnmatchedTypes { predicted: TypeView, declared: TypeView },
}

impl View for ParserErr {
    type V = ParserErrView;

    open spec fn view(&self) -> ParserErrView {
        match self {
            ParserErr::UnexpectedToken { line, column, token } => ParserErrView::UnexpectedToken {
                line: *line as int,
                column: *column as int,
                token: token@,
            },
            ParserErr::ExpectedToken { line, column, expected, found } => {
                ParserErrView::ExpectedToken {
                    line: *line as int,
                    column: *column as int,
                    expected: expected@,
                    found: found@,
                }
            },
            ParserErr::UnexpectedEOF => ParserErrView::UnexpectedEOF,
            ParserErr::UnmatchedTypes { predicted, declared } => ParserErrView::UnmatchedTypes {
                predicted: predicted@,
                declared: declared@,
            },
        }
    }
}

impl Clone for ParserErr {
    fn clone(&self) -> (copy: ParserErr)
        ensures
            copy@ == self@,
    {
        match self {
            ParserErr::UnexpectedToken { line, column, token } => ParserErr::UnexpectedToken {
                line: *line,
                column: *column,
                token: token.clone(),
            },
            ParserErr::ExpectedToken { line, column, expected, found } => {
                ParserErr::ExpectedToken {
                    line: *line,
                    column: *column,
                    expected: expected.clone(),
                    found: found.clone(),
                }
            },
            ParserErr::UnexpectedEOF => ParserErr::UnexpectedEOF,
            ParserErr::UnmatchedTypes { predicted, declared } => ParserErr::UnmatchedTypes {
                predicted: predicted.clone(),
                declared: declared.clone(),
            },
        }
    }
}

/// The values of a list of diagnostics.
pub open spec fn error_views(errs: Seq<ParserErr>) -> Seq<ParserErrView> {
    Seq::new(errs.len(), |i: int| errs[i]@)
}

/// The values of a list that gained a member.
pub proof fn lemma_error_views_push(errs: Seq<ParserErr>, last: ParserErr)
    ensures
        error_views(errs.push(last)) == error_views(errs).push(last@),
{
    assert(error_views(errs.push(last)) =~= error_views(errs).push(last@));
}

/// The text that the derived `Debug` writes for a token.
pub uninterp spec fn token_debug(token: TokenView) -> Seq<char>;

/// The text that the derived `Debug` writes for a type.
pub uninterp spec fn type_debug(t: TypeView) -> Seq<char>;

/// Formats a token with `{:?}`, which writes it as the `Debug`
/// implementation that std derives for the token does.
///
/// Trusted: the text depends on what the token holds and on nothing else.
#[verifier::external_body]
fn debug_token(token: &Token) -> (s: String)
    ensures
        s@ == token_debug(token@),
{
    format!("{:?}", token)
}

/// Formats a type with `{:?}`, which writes it as the `Debug`
/// implementation that std derives for the type does.
///
/// Trusted: the text depends on what the type holds and on nothing else.
#[verifier::external_body]
fn debug_type(t: &Type) -> (s: String)
    ensures
        s@ == type_debug(t@),
{
    format!("{:?}", t)
}

/// `n` times the character `c`.
pub open spec fn repeated(c: char, n: nat) -> Seq<char> {
    Seq::new(n, |i: int| c)
}

/// The leading spaces of a pointer line: `column - width + 1`, and none
/// where the column is 0 or the token is wider than that.
pub open spec fn pointer_lead(column: int, width: int) -> nat {
    if column > 0 && column - width + 1 > 0 {
        (column - width + 1) as nat
    } else {
        0
    }
}

/// The pointer under a token of `width` characters whose last character
/// stands in `column`: spaces, then one caret per character.
pub open spec fn pointer_text(column: int, width: int) -> Seq<char> {
    repeated(' ', pointer_lead(column, width)) + repeated('^', width as nat)
}

/// The pointer stands under the token: under a token that fits before its
/// last column, `column - width + 1` spaces lead; in column 0 none does.
pub proof fn lemma_pointer(column: int, width: int)
    requires
        0 <= column,
        0 <= width,
    ensures
        0 < width <= column + 1 && column > 0 ==> pointer_text(column, width) == repeated(
            ' ',
            (column - width + 1) as nat,
        ) + repeated('^', width as nat),
        column == 0 ==> pointer_text(column, width) == repeated('^', width as nat),
        pointer_text(column, width).len() == pointer_lead(column, width) + width,
        forall|i: int|
            0 <= i < pointer_lead(column, width) ==> pointer_text(column, width)[i] == ' ',
        forall|i: int|
            pointer_lead(column, width) <= i < pointer_lead(column, width) + width
                ==> pointer_text(column, width)[i] == '^',
{
    assert(repeated(' ', 0) + repeated('^', width as nat) =~= repeated('^', width as nat));
}

/// The line `line` of a source text, counted from 1, or the empty line
/// where the text has no such line.
pub open spec fn source_line(source: Seq<Seq<char>>, line: int) -> Seq<char> {
    if 1 <= line <= source.len() {
        source[line - 1]
    } else {
        seq![]
    }
}

impl ParserErrView {
    /// Where the diagnostic points: line, column, and the width of the
    /// offending token. A diagnostic without a place points at line 0,
    /// column 0, with the width 1.
    pub open spec fn location(self) -> (int, int, int) {
        match self {
            ParserErrView::UnexpectedToken { line, column, token } => (
                line,
                column,
                token.len() as int,
            ),
            ParserErrView::ExpectedToken { line, column, found, .. } => (
                line,
                column,
                found.len() as int,
            ),
            _ => (0, 0, 1),
        }
    }

    /// The message of the diagnostic.
    pub open spec fn message(self) -> Seq<char> {
        match self {
            ParserErrView::UnexpectedToken { line, column, token } => "Unexpected token "@
                + token_debug(token) + " at line "@ + decimal_digits(line as nat) + " pos "@
                + decimal_digits(column as nat),
            ParserErrView::ExpectedToken { line, column, expected, found } => "Expected token "@
                + token_debug(expected) + " but found "@ + token_debug(found) + " at line "@
                + decimal_digits(line as nat) + " pos "@ + decimal_digits(column as nat),
            ParserErrView::UnexpectedEOF => "Unexpected end of input"@,
            ParserErrView::UnmatchedTypes { predicted, declared } => "Can not assign type "@
                + type_debug(predicted) + " to an identifier of type "@ + type_debug(declared),
        }
    }

    /// The pointer of the diagnostic.
    pub open spec fn pointer(self) -> Seq<char> {
        pointer_text(self.location().1, self.location().2)
    }

    /// The six lines of the rendered diagnostic: an empty line, the message,
    /// the gutter, the source line behind its number, the pointer behind the
    /// gutter, and an empty line.
    pub open spec fn rendered(self, source: Seq<Seq<char>>) -> Seq<Seq<char>> {
        seq![
            seq![],
            "Parsing Error: "@ + self.message(),
            "  | "@,
            decimal_digits(self.location().0 as nat) + " | "@ + source_line(
                source,
                self.location().0,
            ),
            "  | "@ + self.pointer(),
            seq![],
        ]
    }
}

/// Renders `n` in decimal.
fn decimal_string(n: usize) -> (s: String)
    ensures
        s@ == decimal_digits(n as nat),
{
    let digits = decimal_chars(n as u64);
    string_from_chars(&digits)
}

/// Appends `n` times the character `c`.
fn push_repeated(text: &mut Vec<char>, c: char, n: usize)
    ensures
        final(text)@ == old(text)@ + repeated(c, n as nat),
{
    let mut i: usize = 0;
    assert(text@ =~= old(text)@ + repeated(c, 0));
    while i < n
        invariant
            i <= n,
            text@ == old(text)@ + repeated(c, i as nat),
        decreases n - i,
    {
        text.push(c);
        i = i + 1;
        assert(text@ =~= old(text)@ + repeated(c, i as nat));
    }
}

impl ParserErr {
    /// Where the diagnostic points: line, column, and the width of the
    /// offending token.
    pub fn locate(&self) -> (place: (usize, usize, usize))
        ensures
            (place.0 as int, place.1 as int, place.2 as int) == self@.location(),
    {
        match self {
            ParserErr::UnexpectedToken { line, column, token } => (*line, *column, token.len()),
            ParserErr::ExpectedToken { line, column, expected: _, found } => (
                *line,
                *column,
                found.len(),
            ),
            _ => (0, 0, 1),
        }
    }

    /// The message of the diagnostic.
    pub fn message(&self) -> (text: String)
        ensures
            text@ == self@.message(),
    {
        match self {
            ParserErr::UnexpectedToken { line, column, token } => {
                let mut text = String::from_str("Unexpected token ");
                text.append(debug_token(token).as_str());
                text.append(" at line ");
                text.append(decimal_string(*line).as_str());
                text.append(" pos ");
                text.append(decimal_string(*column).as_str());
                text
            },
            ParserErr::ExpectedToken { line, column, expected, found } => {
                let mut text = String::from_str("Expected token ");
                text.append(debug_token(expected).as_str());
                text.append(" but found ");
                text.append(debug_token(found).as_str());
                text.append(" at line ");
                text.append(decimal_string(*line).as_str());
                text.append(" pos ");
                text.append(decimal_string(*column).as_str());
                text
            },
            ParserErr::UnexpectedEOF => String::from_str("Unexpected end of input"),
            ParserErr::UnmatchedTypes { predicted, declared } => {
                let mut text = String::from_str("Can not assign type ");
                text.append(debug_type(predicted).as_str());
                text.append(" to an identifier of type ");
                text.append(debug_type(declared).as_str());
                text
            },
        }
    }

    /// The pointer of the diagnostic: spaces up to the first character of
    /// the offending token, then a caret under each of its characters.
    pub fn pointer(&self) -> (text: String)
        ensures
            text@ == self@.pointer(),
    {
        let (_, column, width) = self.locate();
        let mut chars: Vec<char> = Vec::new();
        if column > 0 && column >= width {
            push_repeated(&mut chars, ' ', column - width);
            chars.push(' ');
        }
        assert(chars@ =~= repeated(' ', pointer_lead(column as int, width as int)));
        push_repeated(&mut chars, '^', width);
        assert(chars@ =~= pointer_text(column as int, width as int));
        string_from_chars(&chars)
    }

    /// Renders the diagnostic against the lines of the source text.
    pub fn render(&self, source: &Vec<String>) -> (lines: Vec<String>)
        ensures
            texts_of(lines@) == self@.rendered(texts_of(source@)),
    {
        let (line, _, _) = self.locate();
        let mut headline = String::from_str("Parsing Error: ");
        headline.append(self.message().as_str());
        let mut excerpt = decimal_string(line);
        excerpt.append(" | ");
        if 1 <= line && line <= source.len() {
            assert(texts_of(source@)[line - 1] == source@[line - 1]@);
            excerpt.append(source[line - 1].as_str());
        } else {
            assert(excerpt@ =~= excerpt@ + Seq::<char>::empty());
        }
        let mut under = String::from_str("  | ");
        under.append(self.pointer().as_str());
        let mut lines: Vec<String> = Vec::new();
        lines.push(String::new());
        lines.push(headline);
        lines.push(String::from_str("  | "));
        lines.push(excerpt);
        lines.push(under);
        lines.push(String::new());
        assert(texts_of(lines@) =~= self@.rendered(texts_of(source@)));
        lines
    }
}

} // verus!
