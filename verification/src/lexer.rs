//! The lexer: source text to positioned tokens, one line at a time.

use vstd::prelude::*;
use crate::classes::{is_letter, is_numeric_char, is_word_char, letter, numeric_char, word_char};
use crate::text::{lines_of, split_lines, string_from_chars, utf8_len};
use crate::tokens::{token_views, Token, TokenView};
use crate::types::number::parsed_number;
use crate::types::Number;

verus! {

/// The kinds of character runs that the lexer scans over.
#[derive(Debug, Clone, Copy, PartialEq, Eq, Structural)]
pub enum Run {
    /// Up to the next double quote.
    Quoted,
    /// Up to the next line feed.
    Comment,
    /// Tab characters.
    Tabs,
    /// Characters that continue an identifier.
    Word,
    /// Characters of a numeric literal.
    Numeric,
}

impl Run {
    /// Whether the run goes on over `c`.
    pub open spec fn takes(self, c: char) -> bool {
        match self {
            Run::Quoted => c != '"',
            Run::Comment => c != '\n',
            Run::Tabs => c == '\t',
            Run::Word => is_word_char(c),
            Run::Numeric => is_numeric_char(c),
        }
    }
}

/// The character that the byte at `i` stands for, if the line has one there.
pub open spec fn char_at(line: Seq<u8>, i: int) -> Option<char> {
    if 0 <= i < line.len() {
        Some(line[i] as char)
    } else {
        None
    }
}

/// The first position at or after `from` where the run stops.
pub open spec fn run_end(line: Seq<u8>, from: int, run: Run) -> int
    decreases line.len() - from,
{
    if 0 <= from < line.len() && run.takes(line[from] as char) {
        run_end(line, from + 1, run)
    } else {
        from
    }
}

/// The characters of `line[from..to]`.
pub open spec fn text_between(line: Seq<u8>, from: int, to: int) -> Seq<char> {
    Seq::new((to - from) as nat, |k: int| line[from + k] as char)
}

/// Whether the six bytes at `i` spell `return`.
pub open spec fn is_return_word(line: Seq<u8>, i: int) -> bool {
    &&& 0 <= i
    &&& i + 6 <= line.len()
    &&& text_between(line, i, i + 6) == seq!['r', 'e', 't', 'u', 'r', 'n']
}

/// Whether a period stands in `line[from..to]`.
pub open spec fn has_period(line: Seq<u8>, from: int, to: int) -> bool {
    exists|k: int| from <= k < to && #[trigger] line[k] as char == '.'
}

/// The token that begins at `i` with a character that is no punctuation: an
/// identifier, a number, or the character itself as unknown text. Given with
/// the position of its last character.
pub open spec fn word_token(line: Seq<u8>, i: int) -> (TokenView, int) {
    let c = line[i] as char;
    if is_letter(c) {
        let end = run_end(line, i + 1, Run::Word);
        (TokenView::Ident(text_between(line, i, end)), end - 1)
    } else if is_numeric_char(c) {
        let end = run_end(line, i + 1, Run::Numeric);
        match parsed_number(text_between(line, i, end), has_period(line, i + 1, end)) {
            Some(n) => (TokenView::Number(n), end - 1),
            None => (TokenView::Unknown(seq![c]), i),
        }
    } else {
        (TokenView::Unknown(seq![c]), i)
    }
}

/// The token that begins at position `i` of a line, with the position of its
/// last character; `None` at the end of the line and after a comment.
pub open spec fn token_at(line: Seq<u8>, i: int) -> Option<(TokenView, int)>
    decreases line.len() - i,
{
    if i < 0 || i >= line.len() {
        None
    } else {
        let c = line[i] as char;
        let next = char_at(line, i + 1);
        if c == '|' {
            Some((TokenView::Pipe, i))
        } else if c == ':' {
            Some((TokenView::TypeAnnotator, i))
        } else if c == ',' {
            Some((TokenView::Comma, i))
        } else if c == '.' {
            Some((TokenView::Period, i))
        } else if c == '"' {
            let end = run_end(line, i + 1, Run::Quoted);
            Some((TokenView::StringLiteral(text_between(line, i + 1, end)), end))
        } else if c == '{' {
            Some((TokenView::FuncOpen, i))
        } else if c == '}' {
            Some((TokenView::FuncClose, i))
        } else if c == '=' {
            if next == Some('=') {
                Some((TokenView::Equality, i + 1))
            } else {
                Some((TokenView::Assignment, i))
            }
        } else if c == '+' {
            Some((TokenView::Addition, i))
        } else if c == '-' {
            Some((TokenView::Subtraction, i))
        } else if c == '*' {
            Some((TokenView::Multiplication, i))
        } else if c == '/' {
            if next == Some('/') {
                let end = run_end(line, i + 2, Run::Comment);
                proof {
                    lemma_run_end(line, i + 2, Run::Comment);
                }
                if end < line.len() {
                    token_at(line, end + 1)
                } else {
                    None
                }
            } else {
                Some((TokenView::Division, i))
            }
        } else if c == '%' {
            Some((TokenView::Mod, i))
        } else if c == '^' {
            Some((TokenView::Power, i))
        } else if c == '(' {
            Some((TokenView::ParenthOpen, i))
        } else if c == ')' {
            Some((TokenView::ParenthClose, i))
        } else if c == '!' {
            Some((TokenView::Not, i))
        } else if c == '>' {
            if next == Some('=') {
                Some((TokenView::GreaterEqual, i + 1))
            } else {
                Some((TokenView::GreaterThan, i))
            }
        } else if c == '<' {
            if next == Some('=') {
                Some((TokenView::LessEqual, i + 1))
            } else {
                Some((TokenView::LessThan, i))
            }
        } else if c == ' ' {
            Some((TokenView::Whitespace, i))
        } else if c == '\t' {
            let end = run_end(line, i + 1, Run::Tabs);
            Some((TokenView::Indent((end - i) as usize), end - 1))
        } else if c == 'r' && is_return_word(line, i) {
            Some((TokenView::Return, i + 5))
        } else {
            Some(word_token(line, i))
        }
    }
}

/// A run ends between its start and the end of the line.
pub proof fn lemma_run_end(line: Seq<u8>, from: int, run: Run)
    requires
        0 <= from <= line.len(),
    ensures
        from <= run_end(line, from, run) <= line.len(),
        forall|k: int| from <= k < run_end(line, from, run) ==> run.takes(#[trigger] line[k] as char),
        run_end(line, from, run) < line.len() ==> !run.takes(
            line[run_end(line, from, run)] as char,
        ),
    decreases line.len() - from,
{
    if from < line.len() && run.takes(line[from] as char) {
        lemma_run_end(line, from + 1, run);
    }
}

/// Whether `name` is written as an identifier: a letter or an underscore,
/// then letters, digits and underscores.
pub open spec fn is_identifier_text(name: Seq<char>) -> bool {
    &&& name.len() >= 1
    &&& is_letter(name[0])
    &&& forall|k: int| 0 <= k < name.len() ==> is_word_char(#[trigger] name[k])
}

/// A token ends at or after the position it was asked for, and no further
/// than the end of the line. It is no newline, and where it is an identifier
/// its name is written as one.
pub proof fn lemma_token_at(line: Seq<u8>, i: int)
    ensures
        token_at(line, i) matches Some((t, end)) ==> {
            &&& 0 <= i <= end <= line.len()
            &&& !(t is Newline)
            &&& t matches TokenView::Ident(name) ==> is_identifier_text(name)
        },
    decreases line.len() - i,
{
    if 0 <= i < line.len() {
        lemma_run_end(line, i + 1, Run::Quoted);
        lemma_run_end(line, i + 1, Run::Tabs);
        lemma_run_end(line, i + 1, Run::Word);
        lemma_run_end(line, i + 1, Run::Numeric);
        if i + 2 <= line.len() {
            lemma_run_end(line, i + 2, Run::Comment);
            let end = run_end(line, i + 2, Run::Comment);
            if end < line.len() {
                lemma_token_at(line, end + 1);
            }
        }
        if is_letter(line[i] as char) {
            let name = text_between(line, i, run_end(line, i + 1, Run::Word));
            assert forall|k: int| 0 <= k < name.len() implies is_word_char(#[trigger] name[k]) by {
                if k > 0 {
                    assert(Run::Word.takes(line[i + k] as char));
                }
            }
        }
    }
}

/// The tokens of a line from position `i` on, closed by the newline token;
/// each with the position of its last character, the newline with the
/// position at which no further token began.
pub open spec fn line_tokens(line: Seq<u8>, i: int) -> Seq<(TokenView, int)>
    decreases line.len() + 1 - i,
{
    match token_at(line, i) {
        None => seq![(TokenView::Newline, i)],
        Some((t, end)) => {
            proof {
                lemma_token_at(line, i);
            }
            seq![(t, end)] + line_tokens(line, end + 1)
        },
    }
}

/// The tokens of the lines `lines[k..]`, one line after the other.
pub open spec fn tokens_of_lines(lines: Seq<Seq<char>>, k: int) -> Seq<(TokenView, int)>
    decreases lines.len() - k,
{
    if k < 0 || k >= lines.len() {
        seq![]
    } else {
        line_tokens(vstd::utf8::encode_utf8(lines[k]), 0) + tokens_of_lines(lines, k + 1)
    }
}

/// The token stream of a source text.
pub open spec fn lexed(source: Seq<char>) -> Seq<(TokenView, int)> {
    tokens_of_lines(lines_of(source), 0)
}

/// Whether every line of the text is short enough for its columns, and the
/// column after its end, to be counted in `usize`.
pub open spec fn fits_columns(source: Seq<char>) -> bool {
    forall|k: int|
        0 <= k < lines_of(source).len() ==> utf8_len(#[trigger] lines_of(source)[k]) < usize::MAX
}

/// Whether every identifier among the tokens has a name that is written as
/// one; in particular no name is empty.
pub open spec fn names_are_identifiers(tokens: Seq<(TokenView, int)>) -> bool {
    forall|j: int|
        0 <= j < tokens.len() ==> ((#[trigger] tokens[j]).0 matches TokenView::Ident(name)
            ==> is_identifier_text(name))
}

/// The tokens of a line: the newline token is the last one and the only
/// one, the columns grow from token to token, and every identifier has a
/// name that is written as one.
pub proof fn lemma_line_tokens(line: Seq<u8>, i: int)
    requires
        0 <= i,
    ensures
        ({
            let tokens = line_tokens(line, i);
            &&& tokens.len() >= 1
            &&& tokens.last().0 == TokenView::Newline
            &&& forall|j: int| 0 <= j < tokens.len() - 1 ==> !((#[trigger] tokens[j]).0 is Newline)
            &&& forall|j: int| 0 <= j < tokens.len() ==> i <= (#[trigger] tokens[j]).1
            &&& forall|j: int, k: int|
                0 <= j < k < tokens.len() ==> (#[trigger] tokens[j]).1 < (#[trigger] tokens[k]).1
            &&& names_are_identifiers(tokens)
        }),
    decreases line.len() + 1 - i,
{
    lemma_token_at(line, i);
    match token_at(line, i) {
        None => {},
        Some((t, end)) => {
            lemma_line_tokens(line, end + 1);
            let rest = line_tokens(line, end + 1);
            let tokens = line_tokens(line, i);
            assert(tokens == seq![(t, end)] + rest);
            assert forall|j: int| 0 < j < tokens.len() implies #[trigger] tokens[j] == rest[j
                - 1] by {}
            assert(tokens[0] == (t, end));
            assert forall|j: int, k: int| 0 <= j < k < tokens.len() implies (#[trigger] tokens[j]).1
                < (#[trigger] tokens[k]).1 by {
                assert(tokens[k] == rest[k - 1]);
                if j > 0 {
                    assert(tokens[j] == rest[j - 1]);
                }
            }
            assert forall|j: int| 0 <= j < tokens.len() implies ((#[trigger] tokens[j]).0 matches TokenView::Ident(
                name,
            ) ==> is_identifier_text(name)) by {
                if j > 0 {
                    assert(tokens[j] == rest[j - 1]);
                }
            }
        },
    }
}

/// How many of the tokens are newline tokens.
pub open spec fn newlines(tokens: Seq<(TokenView, int)>) -> nat
    decreases tokens.len(),
{
    if tokens.len() == 0 {
        0
    } else if tokens.last().0 is Newline {
        newlines(tokens.drop_last()) + 1
    } else {
        newlines(tokens.drop_last())
    }
}

proof fn lemma_newlines_none(tokens: Seq<(TokenView, int)>)
    requires
        forall|j: int| 0 <= j < tokens.len() ==> !((#[trigger] tokens[j]).0 is Newline),
    ensures
        newlines(tokens) == 0,
    decreases tokens.len(),
{
    if tokens.len() > 0 {
        let front = tokens.drop_last();
        assert forall|j: int| 0 <= j < front.len() implies !((#[trigger] front[j]).0 is Newline) by {
            assert(front[j] == tokens[j]);
        }
        lemma_newlines_none(front);
    }
}

proof fn lemma_newlines_add(a: Seq<(TokenView, int)>, b: Seq<(TokenView, int)>)
    ensures
        newlines(a + b) == newlines(a) + newlines(b),
    decreases b.len(),
{
    if b.len() == 0 {
        assert(a + b =~= a);
    } else {
        assert((a + b).drop_last() =~= a + b.drop_last());
        lemma_newlines_add(a, b.drop_last());
    }
}

/// A source text has as many newline tokens as it has lines: every line,
/// also an empty one, ends in one.
pub proof fn lemma_newline_per_line(source: Seq<char>)
    ensures
        newlines(lexed(source)) == lines_of(source).len(),
{
    lemma_newlines_of_lines(lines_of(source), 0);
}

proof fn lemma_newlines_of_lines(lines: Seq<Seq<char>>, k: int)
    requires
        0 <= k <= lines.len(),
    ensures
        newlines(tokens_of_lines(lines, k)) == lines.len() - k,
    decreases lines.len() - k,
{
    if k < lines.len() {
        let first = line_tokens(vstd::utf8::encode_utf8(lines[k]), 0);
        lemma_line_tokens(vstd::utf8::encode_utf8(lines[k]), 0);
        lemma_newlines_none(first.drop_last());
        lemma_newlines_of_lines(lines, k + 1);
        lemma_newlines_add(first, tokens_of_lines(lines, k + 1));
    }
}

/// Every identifier among the tokens of a source text has a name that is
/// written as one.
pub proof fn lemma_lexed_names(source: Seq<char>)
    ensures
        names_are_identifiers(lexed(source)),
{
    lemma_tokens_of_lines_names(lines_of(source), 0);
}

proof fn lemma_tokens_of_lines_names(lines: Seq<Seq<char>>, k: int)
    requires
        0 <= k,
    ensures
        names_are_identifiers(tokens_of_lines(lines, k)),
    decreases lines.len() - k,
{
    if k < lines.len() {
        let first = line_tokens(vstd::utf8::encode_utf8(lines[k]), 0);
        let rest = tokens_of_lines(lines, k + 1);
        lemma_line_tokens(vstd::utf8::encode_utf8(lines[k]), 0);
        lemma_tokens_of_lines_names(lines, k + 1);
        let all = tokens_of_lines(lines, k);
        assert(all == first + rest);
        assert forall|j: int| 0 <= j < all.len() implies ((#[trigger] all[j]).0 matches TokenView::Ident(
            name,
        ) ==> is_identifier_text(name)) by {
            if j < first.len() {
                assert(all[j] == first[j]);
            } else {
                assert(all[j] == rest[j - first.len()]);
            }
        }
    }
}

/// Tests whether the columns of every line of a text can be counted.
pub fn columns_fit(source: &str) -> (fit: bool)
    ensures
        fit == fits_columns(source@),
{
    let lines = split_lines(source);
    let mut k: usize = 0;
    while k < lines.len()
        invariant
            k <= lines.len(),
            crate::text::texts_of(lines@) == lines_of(source@),
            forall|j: int|
                0 <= j < k ==> utf8_len(#[trigger] lines_of(source@)[j]) < usize::MAX,
        decreases lines.len() - k,
    {
        assert(crate::text::texts_of(lines@)[k as int] == lines@[k as int]@);
        if lines[k].as_str().as_bytes().len() == usize::MAX {
            return false;
        }
        k = k + 1;
    }
    true
}

/// Namespace of the lexing functions.
pub struct Lexer;

fn takes(run: &Run, c: char) -> (b: bool)
    ensures
        b == run.takes(c),
{
    match run {
        Run::Quoted => c != '"',
        Run::Comment => c != '\n',
        Run::Tabs => c == '\t',
        Run::Word => word_char(c),
        Run::Numeric => numeric_char(c),
    }
}

/// Finds where the run that starts at `from` stops.
fn scan(chars: &[u8], from: usize, run: Run) -> (end: usize)
    requires
        from <= chars@.len() <= usize::MAX,
    ensures
        end == run_end(chars@, from as int, run),
        from <= end <= chars@.len(),
{
    let goes_on = |nc: char| -> (r: bool)
        ensures
            r == run.takes(nc),
        {
            takes(&run, nc)
        };
    let mut end: usize = from;
    while Lexer::is_match(chars, end, goes_on)
        invariant
            from <= end <= chars@.len() <= usize::MAX,
            run_end(chars@, end as int, run) == run_end(chars@, from as int, run),
            forall|x: char| call_requires(goes_on, (x,)),
            forall|x: char, r: bool| call_ensures(goes_on, (x,), r) ==> r == run.takes(x),
        decreases chars@.len() - end,
    {
        end = end + 1;
    }
    end
}

/// Copies `chars[from..to]` as characters.
fn text_of(chars: &[u8], from: usize, to: usize) -> (text: Vec<char>)
    requires
        from <= to <= chars@.len(),
    ensures
        text@ == text_between(chars@, from as int, to as int),
{
    let mut text: Vec<char> = Vec::new();
    let mut k: usize = from;
    while k < to
        invariant
            from <= k <= to <= chars@.len(),
            text@ == text_between(chars@, from as int, k as int),
        decreases to - k,
    {
        text.push(chars[k] as char);
        assert(text@ =~= text_between(chars@, from as int, k + 1));
        k = k + 1;
    }
    text
}

/// Looks for a period in `chars[from..to]`.
fn find_period(chars: &[u8], from: usize, to: usize) -> (found: bool)
    requires
        from <= to <= chars@.len(),
    ensures
        found == has_period(chars@, from as int, to as int),
{
    let mut k: usize = from;
    while k < to
        invariant
            from <= k <= to <= chars@.len(),
            !has_period(chars@, from as int, k as int),
        decreases to - k,
    {
        if chars[k] as char == '.' {
            return true;
        }
        k = k + 1;
    }
    false
}

impl Lexer {
    fn get_char(chars: &[u8], i: usize) -> (r: Option<char>)
        ensures
            r == char_at(chars@, i as int),
    {
        if i >= chars.len() {
            return None;
        }
        Some(chars[i] as char)
    }

    fn is(chars: &[u8], i: usize, c: char) -> (b: bool)
        ensures
            b == (char_at(chars@, i as int) == Some(c)),
    {
        match Lexer::get_char(chars, i) {
            Some(nc) => nc == c,
            None => false,
        }
    }

    fn is_match<F>(chars: &[u8], i: usize, c: F) -> (b: bool) where F: Fn(char) -> bool
        requires
            forall|x: char| call_requires(c, (x,)),
        ensures
            match char_at(chars@, i as int) {
                Some(x) => call_ensures(c, (x,), b),
                None => !b,
            },
    {
        match Lexer::get_char(chars, i) {
            Some(x) => c(x),
            None => false,
        }
    }

    /// The token that begins at `i`, with the position of its last
    /// character.
    fn next_token(chars: &[u8], i: usize) -> (r: Option<(Token, usize)>)
        requires
            chars@.len() < usize::MAX,
        ensures
            match r {
                Some((t, end)) => token_at(chars@, i as int) == Some((t@, end as int)),
                None => token_at(chars@, i as int) is None,
            },
        decreases chars@.len() - i,
    {
        if i >= chars.len() {
            return None;
        }
        let c = chars[i] as char;
        if c == '|' {
            Some((Token::Pipe, i))
        } else if c == ':' {
            Some((Token::TypeAnnotator, i))
        } else if c == ',' {
            Some((Token::Comma, i))
        } else if c == '.' {
            Some((Token::Period, i))
        } else if c == '"' {
            let end = scan(chars, i + 1, Run::Quoted);
            let text = text_of(chars, i + 1, end);
            Some((Token::StringLiteral(string_from_chars(&text)), end))
        } else if c == '{' {
            Some((Token::FuncOpen, i))
        } else if c == '}' {
            Some((Token::FuncClose, i))
        } else if c == '=' {
            if Lexer::is(chars, i + 1, '=') {
                Some((Token::Equality, i + 1))
            } else {
                Some((Token::Assignment, i))
            }
        } else if c == '+' {
            Some((Token::Addition, i))
        } else if c == '-' {
            Some((Token::Subtraction, i))
        } else if c == '*' {
            Some((Token::Multiplication, i))
        } else if c == '/' {
            if Lexer::is(chars, i + 1, '/') {
                let end = scan(chars, i + 2, Run::Comment);
                if end < chars.len() {
                    Lexer::next_token(chars, end + 1)
                } else {
                    None
                }
            } else {
                Some((Token::Division, i))
            }
        } else if c == '%' {
            Some((Token::Mod, i))
        } else if c == '^' {
            Some((Token::Power, i))
        } else if c == '(' {
            Some((Token::ParenthOpen, i))
        } else if c == ')' {
            Some((Token::ParenthClose, i))
        } else if c == '!' {
            Some((Token::Not, i))
        } else if c == '>' {
            if Lexer::is(chars, i + 1, '=') {
                Some((Token::GreaterEqual, i + 1))
            } else {
                Some((Token::GreaterThan, i))
            }
        } else if c == '<' {
            if Lexer::is(chars, i + 1, '=') {
                Some((Token::LessEqual, i + 1))
            } else {
                Some((Token::LessThan, i))
            }
        } else if c == ' ' {
            Some((Token::Whitespace, i))
        } else if c == '\t' {
            let end = scan(chars, i + 1, Run::Tabs);
            Some((Token::Indent(end - i), end - 1))
        } else if c == 'r' && Lexer::spells_return(chars, i) {
            Some((Token::Return, i + 5))
        } else {
            Some(Lexer::tokenize_else(c, chars, i))
        }
    }

    /// Whether `return` stands at `i`.
    fn spells_return(chars: &[u8], i: usize) -> (b: bool)
        requires
            i < chars@.len(),
        ensures
            b == is_return_word(chars@, i as int),
    {
        let ghost word = text_between(chars@, i as int, i + 6);
        let ghost goal = seq!['r', 'e', 't', 'u', 'r', 'n'];
        assert(goal.len() == 6 && goal[0] == 'r' && goal[1] == 'e' && goal[2] == 't' && goal[3]
            == 'u' && goal[4] == 'r' && goal[5] == 'n');
        if chars.len() - i >= 6 {
            assert(word[0] == chars@[i as int] as char);
            assert(word[1] == chars@[i + 1] as char);
            assert(word[2] == chars@[i + 2] as char);
            assert(word[3] == chars@[i + 3] as char);
            assert(word[4] == chars@[i + 4] as char);
            assert(word[5] == chars@[i + 5] as char);
            let b = chars[i] as char == 'r' && chars[i + 1] as char == 'e' && chars[i + 2] as char
                == 't' && chars[i + 3] as char == 'u' && chars[i + 4] as char == 'r' && chars[i
                + 5] as char == 'n';
            proof {
                if b {
                    assert(word =~= goal);
                }
            }
            b
        } else {
            false
        }
    }

    /// An identifier, a number, or the character itself as unknown text.
    fn tokenize_else(c: char, chars: &[u8], i: usize) -> (r: (Token, usize))
        requires
            i < chars@.len() <= usize::MAX,
            c == chars@[i as int] as char,
        ensures
            (r.0@, r.1 as int) == word_token(chars@, i as int),
    {
        if letter(c) {
            let end = scan(chars, i + 1, Run::Word);
            let ident = text_of(chars, i, end);
            return (Token::Ident(string_from_chars(&ident)), end - 1);
        }
        if numeric_char(c) {
            match Lexer::lex_number(c, i, chars) {
                Some(t) => t,
                None => (Token::Unknown(Lexer::unknown_text(c)), i),
            }
        } else {
            (Token::Unknown(Lexer::unknown_text(c)), i)
        }
    }

    fn unknown_text(c: char) -> (s: String)
        ensures
            s@ == seq![c],
    {
        let mut text: Vec<char> = Vec::new();
        text.push(c);
        assert(text@ =~= seq![c]);
        string_from_chars(&text)
    }

    /// The numeric literal that begins at `i`, where its text is one.
    fn lex_number(c: char, i: usize, chars: &[u8]) -> (r: Option<(Token, usize)>)
        requires
            i < chars@.len() <= usize::MAX,
            c == chars@[i as int] as char,
        ensures
            ({
                let end = run_end(chars@, i + 1, Run::Numeric);
                let number = parsed_number(
                    text_between(chars@, i as int, end),
                    has_period(chars@, i + 1, end),
                );
                match r {
                    Some((t, last)) => number matches Some(n) && t@ == TokenView::Number(n) && last
                        == end - 1,
                    None => number is None,
                }
            }),
    {
        let end = scan(chars, i + 1, Run::Numeric);
        let has_decimal = find_period(chars, i + 1, end);
        let number = text_of(chars, i, end);
        let number_str = string_from_chars(&number);
        if let Ok(num) = Number::parse_number(number_str.as_str(), has_decimal) {
            return Some((Token::Number(num), end - 1));
        }
        None
    }

    /// Appends the tokens of one line, and the newline that closes it.
    fn lex_line(chars: &[u8], tokens: &mut Vec<(Token, usize)>)
        requires
            chars@.len() < usize::MAX,
        ensures
            token_views(final(tokens)@) == token_views(old(tokens)@) + line_tokens(chars@, 0),
    {
        let mut i: usize = 0;
        loop
            invariant
                i <= chars@.len() + 1,
                chars@.len() < usize::MAX,
                token_views(tokens@) + line_tokens(chars@, i as int) == token_views(old(tokens)@)
                    + line_tokens(chars@, 0),
            ensures
                token_views(tokens@) + seq![(TokenView::Newline, i as int)] == token_views(
                    old(tokens)@,
                ) + line_tokens(chars@, 0),
            decreases chars@.len() + 1 - i,
        {
            let ghost before = tokens@;
            let token = if i <= chars.len() {
                Lexer::next_token(chars, i)
            } else {
                None
            };
            match token {
                None => {
                    break ;
                },
                Some(token) => {
                    proof {
                        lemma_token_at(chars@, i as int);
                    }
                    let ghost rest = line_tokens(chars@, token.1 + 1);
                    i = token.1 + 1;
                    tokens.push(token);
                    assert(token_views(tokens@) =~= token_views(before).push(
                        (token.0@, token.1 as int),
                    ));
                    assert(token_views(tokens@) + rest =~= token_views(before) + (seq![
                        (token.0@, token.1 as int),
                    ] + rest));
                },
            }
        }
        let ghost before = tokens@;
        tokens.push((Token::Newline, i));
        assert(token_views(tokens@) =~= token_views(before) + seq![(TokenView::Newline, i as int)]);
    }

    /// Lexes a source text: the tokens of each line, in order, every line
    /// closed by a newline token.
    pub fn lex(source: &str) -> (tokens: Vec<(Token, usize)>)
        requires
            fits_columns(source@),
        ensures
            token_views(tokens@) == lexed(source@),
    {
        let lines = split_lines(source);
        let mut tokens: Vec<(Token, usize)> = Vec::new();
        let mut k: usize = 0;
        assert(token_views(tokens@) =~= Seq::<(TokenView, int)>::empty());
        while k < lines.len()
            invariant
                k <= lines.len(),
                fits_columns(source@),
                crate::text::texts_of(lines@) == lines_of(source@),
                token_views(tokens@) + tokens_of_lines(lines_of(source@), k as int) == lexed(
                    source@,
                ),
            decreases lines.len() - k,
        {
            let ghost before = token_views(tokens@);
            let ghost line = lines_of(source@)[k as int];
            assert(crate::text::texts_of(lines@)[k as int] == lines@[k as int]@);
            let chars = lines[k].as_str().as_bytes();
            assert(chars@ == vstd::utf8::encode_utf8(line));
            Lexer::lex_line(chars, &mut tokens);
            assert(token_views(tokens@) + tokens_of_lines(lines_of(source@), k + 1) =~= before + (
            line_tokens(chars@, 0) + tokens_of_lines(lines_of(source@), k + 1)));
            k = k + 1;
        }
        assert(tokens_of_lines(lines_of(source@), k as int) =~= Seq::<(TokenView, int)>::empty());
        assert(token_views(tokens@) + Seq::<(TokenView, int)>::empty() =~= token_views(tokens@));
        tokens
    }
}

} // verus!
