//! The grammar of Props, as functions from a cursor over the token stream to
//! what is parsed there and the cursor behind it.
//!
//! Every rule hands back the cursor it stopped at, also where it fails: the
//! tokens a failed rule has taken stay taken.

use vstd::prelude::*;
use crate::error::ParserErrView;
use crate::nodes::{AstNodeView, ExpressionView, IdentifierView, MathExprView, MathOp};
use crate::tokens::TokenView;
use crate::types::TypeView;

verus! {

/// The state of a parse: the tokens not yet taken, each with its column, the
/// number of newlines taken so far, and the two marks of argument lists.
pub struct Cursor {
    pub tokens: Seq<(TokenView, int)>,
    pub line: int,
    /// Set while a whitespace-delimited argument list is parsed.
    pub ws_delim: bool,
    /// Set while a parenthesized expression is parsed.
    pub in_parenth: bool,
}

/// What a rule yields: its result and the cursor behind it.
pub type Parsed<T> = (Result<T, ParserErrView>, Cursor);

impl Cursor {
    /// The next token, if there is one.
    pub open spec fn peek(self) -> Option<TokenView> {
        if self.tokens.len() > 0 {
            Some(self.tokens[0].0)
        } else {
            None
        }
    }

    /// Takes the next token; a newline counts a line.
    pub open spec fn next(self) -> (Option<(TokenView, int)>, Cursor) {
        if self.tokens.len() == 0 {
            (None, self)
        } else {
            let taken = self.tokens[0];
            (
                Some(taken),
                Cursor {
                    tokens: self.tokens.skip(1),
                    line: if taken.0 is Newline {
                        self.line + 1
                    } else {
                        self.line
                    },
                    ..self
                },
            )
        }
    }

    /// The cursor behind the next token.
    pub open spec fn step(self) -> Cursor {
        self.next().1
    }

    /// Takes the insignificant tokens that come next.
    pub open spec fn skip_empty(self) -> Cursor
        decreases self.tokens.len(),
    {
        if self.tokens.len() > 0 && self.tokens[0].0.is_insignificant() {
            self.step().skip_empty()
        } else {
            self
        }
    }

    /// The first significant token at or after the offset `skip`, which is
    /// what every decision of the grammar looks at. Takes nothing.
    pub open spec fn peek_past(self, skip: int) -> Option<TokenView>
        decreases self.tokens.len() - skip,
    {
        if skip < 0 || skip >= self.tokens.len() {
            None
        } else if self.tokens[skip].0.is_insignificant() {
            self.peek_past(skip + 1)
        } else {
            Some(self.tokens[skip].0)
        }
    }

    /// The cursor behind the first significant token.
    pub open spec fn past_significant(self) -> Cursor {
        self.skip_empty().step()
    }

    /// The diagnostic for `token`, found at the head of the significant
    /// tokens where another one was required. Lines count from 1.
    pub open spec fn mismatch(self, token: (TokenView, int)) -> ParserErrView {
        ParserErrView::UnexpectedToken {
            line: self.skip_empty().line + 1,
            column: token.1,
            token: token.0,
        }
    }

    /// Gives up the parse at this point: takes the next token as it comes
    /// and reports it on the line it stands in. Lines count from 1.
    pub open spec fn unexpected_token(self) -> (ParserErrView, Cursor) {
        match self.next() {
            (None, behind) => (ParserErrView::UnexpectedEOF, behind),
            (Some(token), behind) => (
                ParserErrView::UnexpectedToken {
                    line: self.line + 1,
                    column: token.1,
                    token: token.0,
                },
                behind,
            ),
        }
    }

    /// Whether fewer tokens are left here than at `outer`.
    pub open spec fn shorter(self, outer: Cursor) -> bool {
        self.tokens.len() < outer.tokens.len()
    }

    /// Whether no more tokens are left here than at `outer`.
    pub open spec fn within(self, outer: Cursor) -> bool {
        self.tokens.len() <= outer.tokens.len()
    }
}

/// What a rule yields where a rule it relied on handed back more tokens than
/// it was given. No rule does: the rules are defined by recursion on the
/// number of tokens that are left, which is why they test it, and the lemmas
/// at the end of this module show that every such test succeeds.
pub open spec fn stuck<T>(c: Cursor) -> Parsed<T> {
    (Err(ParserErrView::UnexpectedEOF), c)
}

/// Requires an identifier as the next significant token.
pub open spec fn expect_ident(c: Cursor) -> Parsed<Seq<char>> {
    match c.skip_empty().next() {
        (None, behind) => (Err(ParserErrView::UnexpectedEOF), behind),
        (Some((TokenView::Ident(name), _)), behind) => (Ok(name), behind),
        (Some(token), behind) => (Err(c.mismatch(token)), behind),
    }
}

/// Requires the token `want` as the next significant token.
pub open spec fn expect_token(c: Cursor, want: TokenView) -> Parsed<()> {
    match c.skip_empty().next() {
        (None, behind) => (Err(ParserErrView::UnexpectedEOF), behind),
        (Some(token), behind) => if token.0 == want {
            (Ok(()), behind)
        } else {
            (Err(c.mismatch(token)), behind)
        },
    }
}

/// Requires a string literal as the next significant token.
pub open spec fn expect_string(c: Cursor) -> Parsed<ExpressionView> {
    match c.skip_empty().next() {
        (None, behind) => (Err(ParserErrView::UnexpectedEOF), behind),
        (Some((TokenView::StringLiteral(text), _)), behind) => (
            Ok(ExpressionView::StrLiteral(text)),
            behind,
        ),
        (Some(token), behind) => (Err(c.mismatch(token)), behind),
    }
}

/// Requires a numeric literal as the next significant token.
pub open spec fn expect_number(c: Cursor) -> Parsed<MathExprView> {
    match c.skip_empty().next() {
        (None, behind) => (Err(ParserErrView::UnexpectedEOF), behind),
        (Some((TokenView::Number(n), _)), behind) => (Ok(MathExprView::Literal(n)), behind),
        (Some(token), behind) => (Err(c.mismatch(token)), behind),
    }
}

/// The operator of the additive level that `token` writes.
pub open spec fn additive_op(token: Option<TokenView>) -> Option<MathOp> {
    match token {
        Some(TokenView::Addition) => Some(MathOp::Add),
        Some(TokenView::Subtraction) => Some(MathOp::Sub),
        _ => None,
    }
}

/// The operator of the multiplicative level that `token` writes. Power
/// stands on this level, beside multiplication, division and remainder.
pub open spec fn multiplicative_op(token: Option<TokenView>) -> Option<MathOp> {
    match token {
        Some(TokenView::Multiplication) => Some(MathOp::Mul),
        Some(TokenView::Division) => Some(MathOp::Div),
        Some(TokenView::Power) => Some(MathOp::Pow),
        Some(TokenView::Mod) => Some(MathOp::Mod),
        _ => None,
    }
}

/// A type annotation: a type name, or a parenthesized list of type names
/// separated by commas. A list of one name is that type; a longer list is
/// their compound.
pub open spec fn parse_type(c: Cursor) -> Parsed<TypeView> {
    if c.peek_past(0) == Some(TokenView::ParenthOpen) {
        match expect_ident(c.past_significant()) {
            (Err(e), behind) => (Err(e), behind),
            (Ok(first), behind) => type_list(behind, seq![TypeView::Defined(first)]),
        }
    } else {
        match expect_ident(c) {
            (Err(e), behind) => (Err(e), behind),
            (Ok(name), behind) => (Ok(TypeView::Defined(name)), behind),
        }
    }
}

/// The rest of a parenthesized type list, after the names in `types`.
pub open spec fn type_list(c: Cursor, types: Seq<TypeView>) -> Parsed<TypeView>
    decreases c.tokens.len(),
{
    if c.peek_past(0) == Some(TokenView::Comma) {
        proof {
            lemma_past_significant(c);
            lemma_past_significant(c.past_significant());
        }
        match expect_ident(c.past_significant()) {
            (Err(e), behind) => (Err(e), behind),
            (Ok(name), behind) => type_list(behind, types.push(TypeView::Defined(name))),
        }
    } else {
        match expect_token(c, TokenView::ParenthClose) {
            (Err(e), behind) => (Err(e), behind),
            (Ok(_), behind) => (
                Ok(
                    if types.len() == 1 {
                        types[0]
                    } else {
                        TypeView::Compound(types)
                    },
                ),
                behind,
            ),
        }
    }
}

/// An identifier without commas: a name with a type annotation, or a name
/// followed by any number of `.name` accessors.
pub open spec fn parse_simple_ident(c: Cursor) -> Parsed<IdentifierView> {
    match expect_ident(c) {
        (Err(e), behind) => (Err(e), behind),
        (Ok(name), behind) => if behind.peek_past(0) == Some(TokenView::TypeAnnotator) {
            match parse_type(behind.past_significant()) {
                (Err(e), end) => (Err(e), end),
                (Ok(declared), end) => (Ok(IdentifierView::Identifier(name, declared)), end),
            }
        } else {
            accessors(behind, IdentifierView::Identifier(name, TypeView::Undefined))
        },
    }
}

/// The accessors that follow `object`, folded to the left.
pub open spec fn accessors(c: Cursor, object: IdentifierView) -> Parsed<IdentifierView>
    decreases c.tokens.len(),
{
    if c.peek_past(0) == Some(TokenView::Period) {
        proof {
            lemma_past_significant(c);
            lemma_past_significant(c.past_significant());
        }
        match expect_ident(c.past_significant()) {
            (Err(e), behind) => (Err(e), behind),
            (Ok(name), behind) => accessors(
                behind,
                IdentifierView::Accessor(
                    Box::new(object),
                    Box::new(IdentifierView::Identifier(name, TypeView::Undefined)),
                ),
            ),
        }
    } else {
        (Ok(object), c)
    }
}

/// An identifier: simple identifiers joined by commas. Accessors bind
/// tighter than the commas.
pub open spec fn parse_ident(c: Cursor) -> Parsed<IdentifierView> {
    match parse_simple_ident(c) {
        (Err(e), behind) => (Err(e), behind),
        (Ok(first), behind) => more_idents(behind, first),
    }
}

/// The identifiers that follow `ident` after commas, joined to it.
pub open spec fn more_idents(c: Cursor, ident: IdentifierView) -> Parsed<IdentifierView>
    decreases c.tokens.len(),
{
    if c.peek_past(0) == Some(TokenView::Comma) {
        proof {
            lemma_past_significant(c);
            lemma_parse_simple_ident(c.past_significant());
        }
        match parse_simple_ident(c.past_significant()) {
            (Err(e), behind) => (Err(e), behind),
            (Ok(rhs), behind) => more_idents(behind, ident.compound(rhs)),
        }
    } else {
        (Ok(ident), c)
    }
}

/// The parameters of a function literal after its opening pipe, up to and
/// with the closing pipe: names, each with an optional type annotation,
/// separated by single spaces.
pub open spec fn parameters(c: Cursor, params: Seq<(Seq<char>, TypeView)>) -> Parsed<
    Seq<(Seq<char>, TypeView)>,
>
    decreases c.tokens.len(),
{
    match expect_ident(c) {
        (Err(e), behind) => (Err(e), behind),
        (Ok(name), behind) => {
            let annotation = if behind.peek_past(0) == Some(TokenView::TypeAnnotator) {
                parse_type(behind.past_significant())
            } else {
                (Ok(TypeView::Undefined), behind)
            };
            match annotation {
                (Err(e), end) => (Err(e), end),
                (Ok(declared), end) => {
                    let spaced = if end.peek() == Some(TokenView::Whitespace) {
                        end.step()
                    } else {
                        end
                    };
                    proof {
                        lemma_past_significant(c);
                        lemma_past_significant(behind);
                        lemma_parse_type(behind.past_significant());
                    }
                    if spaced.peek_past(0) == Some(TokenView::Pipe) {
                        (Ok(params.push((name, declared))), spaced.past_significant())
                    } else {
                        parameters(spaced, params.push((name, declared)))
                    }
                },
            }
        },
    }
}

/// Skipping insignificant tokens leaves a suffix of the tokens.
pub proof fn lemma_skip_empty(c: Cursor)
    ensures
        c.skip_empty().within(c),
        c.skip_empty().ws_delim == c.ws_delim,
        c.skip_empty().in_parenth == c.in_parenth,
        c.line <= c.skip_empty().line,
        c.skip_empty().line + c.skip_empty().tokens.len() <= c.line + c.tokens.len(),
        c.peek_past(0) == c.skip_empty().peek(),
        c.peek_past(0) is Some ==> !c.skip_empty().tokens[0].0.is_insignificant(),
        c.peek_past(0) is None ==> c.skip_empty().tokens.len() == 0,
    decreases c.tokens.len(),
{
    if c.tokens.len() > 0 && c.tokens[0].0.is_insignificant() {
        lemma_skip_empty(c.step());
        lemma_peek_past_step(c, 0);
    }
}

/// Looking past an offset is looking past one less on the cursor behind the
/// next token.
pub proof fn lemma_peek_past_step(c: Cursor, skip: int)
    requires
        0 <= skip,
        c.tokens.len() > 0,
    ensures
        c.peek_past(skip + 1) == c.step().peek_past(skip),
    decreases c.tokens.len() - skip,
{
    if skip + 1 < c.tokens.len() {
        if c.tokens[skip + 1].0.is_insignificant() {
            lemma_peek_past_step(c, skip + 1);
        }
    }
}

/// Behind the first significant token fewer tokens are left, unless none
/// were left at all.
pub proof fn lemma_past_significant(c: Cursor)
    ensures
        c.past_significant().within(c),
        c.tokens.len() > 0 ==> c.past_significant().shorter(c),
        c.past_significant().ws_delim == c.ws_delim,
        c.past_significant().in_parenth == c.in_parenth,
        c.past_significant().line + c.past_significant().tokens.len() <= c.line + c.tokens.len(),
        c.peek_past(0) is Some ==> c.tokens.len() > 0,
{
    lemma_skip_empty(c);
}

/// Whether a rule that began at `from` and stopped at `to` has taken a
/// token, if there was one, and left the marks of argument lists alone.
pub open spec fn advanced(from: Cursor, to: Cursor) -> bool {
    &&& to.within(from)
    &&& from.tokens.len() > 0 ==> to.shorter(from)
    &&& to.ws_delim == from.ws_delim
    &&& to.in_parenth == from.in_parenth
    &&& to.line + to.tokens.len() <= from.line + from.tokens.len()
}

/// A type list takes a token, if there is one.
pub proof fn lemma_type_list(c: Cursor, types: Seq<TypeView>)
    ensures
        advanced(c, type_list(c, types).1),
    decreases c.tokens.len(),
{
    lemma_past_significant(c);
    if c.peek_past(0) == Some(TokenView::Comma) {
        lemma_past_significant(c.past_significant());
        match expect_ident(c.past_significant()) {
            (Err(e), behind) => {},
            (Ok(name), behind) => {
                lemma_type_list(behind, types.push(TypeView::Defined(name)));
            },
        }
    }
}

/// A type annotation takes a token, if there is one.
pub proof fn lemma_parse_type(c: Cursor)
    ensures
        advanced(c, parse_type(c).1),
{
    lemma_past_significant(c);
    if c.peek_past(0) == Some(TokenView::ParenthOpen) {
        lemma_past_significant(c.past_significant());
        match expect_ident(c.past_significant()) {
            (Err(e), behind) => {},
            (Ok(first), behind) => {
                lemma_type_list(behind, seq![TypeView::Defined(first)]);
            },
        }
    }
}

/// Accessors hand back no more tokens than they were given.
pub proof fn lemma_accessors(c: Cursor, object: IdentifierView)
    ensures
        ({
            let to = accessors(c, object).1;
            &&& to.within(c)
            &&& to.ws_delim == c.ws_delim
            &&& to.in_parenth == c.in_parenth
            &&& to.line + to.tokens.len() <= c.line + c.tokens.len()
        }),
    decreases c.tokens.len(),
{
    if c.peek_past(0) == Some(TokenView::Period) {
        lemma_skip_empty(c);
        lemma_past_significant(c);
        lemma_past_significant(c.past_significant());
        match expect_ident(c.past_significant()) {
            (Err(e), behind) => {},
            (Ok(name), behind) => {
                lemma_accessors(
                    behind,
                    IdentifierView::Accessor(
                        Box::new(object),
                        Box::new(IdentifierView::Identifier(name, TypeView::Undefined)),
                    ),
                );
            },
        }
    }
}

/// A simple identifier takes a token, if there is one.
pub proof fn lemma_parse_simple_ident(c: Cursor)
    ensures
        advanced(c, parse_simple_ident(c).1),
{
    lemma_past_significant(c);
    match expect_ident(c) {
        (Err(e), behind) => {},
        (Ok(name), behind) => {
            if behind.peek_past(0) == Some(TokenView::TypeAnnotator) {
                lemma_past_significant(behind);
                lemma_parse_type(behind.past_significant());
            } else {
                lemma_accessors(behind, IdentifierView::Identifier(name, TypeView::Undefined));
            }
        },
    }
}

/// The identifiers behind commas hand back no more tokens than they were
/// given.
pub proof fn lemma_more_idents(c: Cursor, ident: IdentifierView)
    ensures
        ({
            let to = more_idents(c, ident).1;
            &&& to.within(c)
            &&& to.ws_delim == c.ws_delim
            &&& to.in_parenth == c.in_parenth
            &&& to.line + to.tokens.len() <= c.line + c.tokens.len()
        }),
    decreases c.tokens.len(),
{
    if c.peek_past(0) == Some(TokenView::Comma) {
        lemma_skip_empty(c);
        lemma_past_significant(c);
        lemma_parse_simple_ident(c.past_significant());
        match parse_simple_ident(c.past_significant()) {
            (Err(e), behind) => {},
            (Ok(rhs), behind) => {
                lemma_more_idents(behind, ident.compound(rhs));
            },
        }
    }
}

/// An identifier takes a token, if there is one.
pub proof fn lemma_parse_ident(c: Cursor)
    ensures
        advanced(c, parse_ident(c).1),
{
    lemma_parse_simple_ident(c);
    match parse_simple_ident(c) {
        (Err(e), behind) => {},
        (Ok(first), behind) => {
            lemma_more_idents(behind, first);
        },
    }
}

/// A parameter list takes a token, if there is one.
pub proof fn lemma_parameters(c: Cursor, params: Seq<(Seq<char>, TypeView)>)
    ensures
        advanced(c, parameters(c, params).1),
    decreases c.tokens.len(),
{
    lemma_past_significant(c);
    match expect_ident(c) {
        (Err(e), behind) => {},
        (Ok(name), behind) => {
            lemma_past_significant(behind);
            lemma_parse_type(behind.past_significant());
            let annotation = if behind.peek_past(0) == Some(TokenView::TypeAnnotator) {
                parse_type(behind.past_significant())
            } else {
                (Ok(TypeView::Undefined), behind)
            };
            match annotation {
                (Err(e), end) => {},
                (Ok(declared), end) => {
                    let spaced = if end.peek() == Some(TokenView::Whitespace) {
                        end.step()
                    } else {
                        end
                    };
                    lemma_past_significant(spaced);
                    if spaced.peek_past(0) != Some(TokenView::Pipe) {
                        lemma_parameters(spaced, params.push((name, declared)));
                    }
                },
            }
        },
    }
}

/// Whether the token is one of the six arithmetic operators.
pub open spec fn is_operator(token: Option<TokenView>) -> bool {
    additive_op(token) is Some || multiplicative_op(token) is Some
}

/// A statement, or `None` where no token is left: `return` and an
/// expression; an identifier, `=` and an expression; or an identifier and
/// its whitespace-delimited arguments.
pub open spec fn parse_node(c: Cursor) -> Parsed<Option<AstNodeView>>
    decreases c.tokens.len(), 12nat,
{
    if c.tokens.len() == 0 {
        (Ok(None), c)
    } else if c.peek_past(0) == Some(TokenView::Return) {
        proof {
            lemma_past_significant(c);
        }
        match parse_expr(c.past_significant()) {
            (Err(e), behind) => (Err(e), behind),
            (Ok(value), behind) => (Ok(Some(AstNodeView::Return(value))), behind),
        }
    } else {
        match parse_ident(c) {
            (Err(e), behind) => (Err(e), behind),
            (Ok(target), behind) => {
                proof {
                    lemma_parse_ident(c);
                    lemma_past_significant(behind);
                }
                if behind.peek_past(0) == Some(TokenView::Assignment) {
                    match parse_expr(behind.past_significant()) {
                        (Err(e), end) => (Err(e), end),
                        (Ok(value), end) => (
                            Ok(Some(AstNodeView::Assignment(target, value))),
                            end,
                        ),
                    }
                } else {
                    let (args, end) = ws_delimited(behind);
                    (Ok(Some(AstNodeView::ImpFuncCall(target, args))), end)
                }
            },
        }
    }
}

/// The arguments of a call: where a single space comes next, expressions
/// separated by single spaces, as many as parse. The list ends, without a
/// diagnostic, before the expression that fails. While it is parsed the
/// cursor is marked, and the mark is taken off behind it.
pub open spec fn ws_delimited(c: Cursor) -> (Seq<ExpressionView>, Cursor)
    decreases c.tokens.len(), 11nat,
{
    if c.peek() == Some(TokenView::Whitespace) {
        let (args, behind) = ws_args(Cursor { ws_delim: true, ..c.step() }, seq![]);
        (args, Cursor { ws_delim: false, ..behind })
    } else {
        (seq![], c)
    }
}

/// The arguments that follow `args`.
pub open spec fn ws_args(c: Cursor, args: Seq<ExpressionView>) -> (Seq<ExpressionView>, Cursor)
    decreases c.tokens.len(), 11nat,
{
    match parse_expr(c) {
        (Err(_), behind) => (args, behind),
        (Ok(arg), behind) => if behind.peek() == Some(TokenView::Whitespace)
            && behind.step().shorter(c) {
            ws_args(behind.step(), args.push(arg))
        } else {
            (args.push(arg), behind)
        },
    }
}

/// An expression: a string literal, a function literal or an arithmetic
/// expression, and whatever commas join to it.
pub open spec fn parse_expr(c: Cursor) -> Parsed<ExpressionView>
    decreases c.tokens.len(), 9nat,
{
    match primary_expr(c) {
        (Err(e), behind) => (Err(e), behind),
        (Ok(first), behind) => if behind.within(c) {
            more_exprs(behind, first)
        } else {
            stuck(behind)
        },
    }
}

/// What an expression begins with: a string literal; a function literal,
/// with a parameter list between pipes or as a bare block; or an arithmetic
/// expression.
pub open spec fn primary_expr(c: Cursor) -> Parsed<ExpressionView>
    decreases c.tokens.len(), 8nat,
{
    if c.peek_past(0) matches Some(TokenView::StringLiteral(_)) {
        expect_string(c)
    } else if c.peek_past(0) == Some(TokenView::Pipe) {
        func_literal(c)
    } else if c.peek_past(0) == Some(TokenView::FuncOpen) {
        match function_body(c) {
            (Err(e), behind) => (Err(e), behind),
            (Ok(statements), behind) => (
                Ok(
                    ExpressionView::FuncLiteral {
                        params: seq![],
                        statements,
                        return_type: TypeView::Undefined,
                    },
                ),
                behind,
            ),
        }
    } else {
        match parse_math_expr(c) {
            (Err(e), behind) => (Err(e), behind),
            (Ok(value), behind) => (Ok(ExpressionView::MathExpr(value)), behind),
        }
    }
}

/// A function literal that begins with a parameter list between pipes.
pub open spec fn func_literal(c: Cursor) -> Parsed<ExpressionView>
    decreases c.tokens.len(), 7nat,
{
    match parameters(c.past_significant(), seq![]) {
        (Err(e), behind) => (Err(e), behind),
        (Ok(params), behind) => {
            let body: Parsed<Seq<AstNodeView>> = if behind.shorter(c) {
                literal_body(behind)
            } else {
                stuck(behind)
            };
            match body {
                (Err(e), end) => (Err(e), end),
                (Ok(statements), end) => (
                    Ok(
                        ExpressionView::FuncLiteral {
                            params,
                            statements,
                            return_type: TypeView::Undefined,
                        },
                    ),
                    end,
                ),
            }
        },
    }
}

/// The body of a function literal behind its parameter list: a block in
/// braces or, where no brace follows, a single expression, which the
/// function returns.
pub open spec fn literal_body(c: Cursor) -> Parsed<Seq<AstNodeView>>
    decreases c.tokens.len(), 10nat,
{
    if c.peek_past(0) == Some(TokenView::FuncOpen) {
        function_body(c)
    } else {
        match parse_expr(c) {
            (Err(e), end) => (Err(e), end),
            (Ok(value), end) => (Ok(seq![AstNodeView::Return(value)]), end),
        }
    }
}

/// The expressions that follow `expr` after commas, joined to it one by
/// one: behind each comma stands what an expression begins with, and all of
/// them are members of one compound.
pub open spec fn more_exprs(c: Cursor, expr: ExpressionView) -> Parsed<ExpressionView>
    decreases c.tokens.len(), 1nat,
{
    if c.peek_past(0) == Some(TokenView::Comma) {
        proof {
            lemma_past_significant(c);
        }
        match primary_expr(c.past_significant()) {
            (Err(e), behind) => (Err(e), behind),
            (Ok(rhs), behind) => if behind.shorter(c) {
                more_exprs(behind, expr.compound(rhs))
            } else {
                stuck(behind)
            },
        }
    } else {
        (Ok(expr), c)
    }
}

/// A block of statements in braces.
pub open spec fn function_body(c: Cursor) -> Parsed<Seq<AstNodeView>>
    decreases c.tokens.len(), 7nat,
{
    match expect_token(c, TokenView::FuncOpen) {
        (Err(e), behind) => (Err(e), behind),
        (Ok(_), behind) => {
            proof {
                lemma_past_significant(c);
            }
            statements(behind, seq![])
        },
    }
}

/// The statements of a block that follow `nodes`, up to and with the
/// closing brace.
pub open spec fn statements(c: Cursor, nodes: Seq<AstNodeView>) -> Parsed<Seq<AstNodeView>>
    decreases c.tokens.len(), 13nat,
{
    if c.peek_past(0) == Some(TokenView::FuncClose) {
        close_body(c, nodes)
    } else {
        match parse_node(c) {
            (Err(e), behind) => (Err(e), behind),
            (Ok(None), behind) => close_body(behind, nodes),
            (Ok(Some(node)), behind) => if behind.shorter(c) {
                statements(behind, nodes.push(node))
            } else {
                stuck(behind)
            },
        }
    }
}

/// The closing brace of a block that holds `nodes`.
pub open spec fn close_body(c: Cursor, nodes: Seq<AstNodeView>) -> Parsed<Seq<AstNodeView>> {
    match expect_token(c, TokenView::FuncClose) {
        (Err(e), behind) => (Err(e), behind),
        (Ok(_), behind) => (Ok(nodes), behind),
    }
}

/// An arithmetic expression: terms of the multiplicative level joined by
/// `+` and `-`, grouped to the left.
pub open spec fn parse_math_expr(c: Cursor) -> Parsed<MathExprView>
    decreases c.tokens.len(), 6nat,
{
    match parse_multiplicative_expr(c) {
        (Err(e), behind) => (Err(e), behind),
        (Ok(left), behind) => if behind.within(c) {
            additions(behind, left)
        } else {
            stuck(behind)
        },
    }
}

/// The additive operators and terms that follow `left`.
pub open spec fn additions(c: Cursor, left: MathExprView) -> Parsed<MathExprView>
    decreases c.tokens.len(), 1nat,
{
    match additive_op(c.peek_past(0)) {
        None => (Ok(left), c),
        Some(op) => {
            proof {
                lemma_past_significant(c);
            }
            match parse_multiplicative_expr(c.past_significant()) {
                (Err(e), behind) => (Err(e), behind),
                (Ok(right), behind) => if behind.shorter(c) {
                    additions(
                        behind,
                        MathExprView::BinaryOp(Box::new(left), Box::new(right), op),
                    )
                } else {
                    stuck(behind)
                },
            }
        },
    }
}

/// A term: factors joined by `*`, `/`, `^` and `%`, grouped to the left.
pub open spec fn parse_multiplicative_expr(c: Cursor) -> Parsed<MathExprView>
    decreases c.tokens.len(), 5nat,
{
    match parse_parenth_expr(c) {
        (Err(e), behind) => (Err(e), behind),
        (Ok(left), behind) => if behind.within(c) {
            multiplications(behind, left)
        } else {
            stuck(behind)
        },
    }
}

/// The multiplicative operators and factors that follow `left`.
pub open spec fn multiplications(c: Cursor, left: MathExprView) -> Parsed<MathExprView>
    decreases c.tokens.len(), 1nat,
{
    match multiplicative_op(c.peek_past(0)) {
        None => (Ok(left), c),
        Some(op) => {
            proof {
                lemma_past_significant(c);
            }
            match parse_parenth_expr(c.past_significant()) {
                (Err(e), behind) => (Err(e), behind),
                (Ok(right), behind) => if behind.shorter(c) {
                    multiplications(
                        behind,
                        MathExprView::BinaryOp(Box::new(left), Box::new(right), op),
                    )
                } else {
                    stuck(behind)
                },
            }
        },
    }
}

/// A factor: an arithmetic expression in parentheses, or a unary
/// expression. Inside the parentheses the cursor is marked; the mark is
/// taken off before the closing parenthesis is required, and stays where the
/// expression inside fails.
pub open spec fn parse_parenth_expr(c: Cursor) -> Parsed<MathExprView>
    decreases c.tokens.len(), 4nat,
{
    if c.peek_past(0) == Some(TokenView::ParenthOpen) {
        proof {
            lemma_past_significant(c);
        }
        match parse_math_expr(Cursor { in_parenth: true, ..c.past_significant() }) {
            (Err(e), behind) => (Err(e), behind),
            (Ok(inner), behind) => match expect_token(
                Cursor { in_parenth: false, ..behind },
                TokenView::ParenthClose,
            ) {
                (Err(e), end) => (Err(e), end),
                (Ok(_), end) => (Ok(inner), end),
            },
        }
    } else {
        parse_unary_expr(c)
    }
}

/// A unary expression: `-` and a factor, a numeric literal, or an
/// identifier.
///
/// An identifier inside an argument list, and outside parentheses, is a
/// reference. Elsewhere it is a reference where no single space follows it,
/// or where an operator follows the space, which is then taken; and the head
/// of a call with whitespace-delimited arguments where anything else follows
/// the space.
pub open spec fn parse_unary_expr(c: Cursor) -> Parsed<MathExprView>
    decreases c.tokens.len(), 3nat,
{
    if c.peek_past(0) == Some(TokenView::Subtraction) {
        proof {
            lemma_past_significant(c);
        }
        match parse_parenth_expr(c.past_significant()) {
            (Err(e), behind) => (Err(e), behind),
            (Ok(inner), behind) => (Ok(MathExprView::Negate(Box::new(inner))), behind),
        }
    } else if c.peek_past(0) matches Some(TokenView::Number(_)) {
        expect_number(c)
    } else if c.peek_past(0) matches Some(TokenView::Ident(_)) {
        match parse_ident(c) {
            (Err(e), behind) => (Err(e), behind),
            (Ok(ident), behind) => {
                proof {
                    lemma_parse_ident(c);
                    lemma_past_significant(c);
                }
                if behind.ws_delim && !behind.in_parenth {
                    (Ok(MathExprView::Identifier(ident)), behind)
                } else if behind.peek() == Some(TokenView::Whitespace) {
                    if is_operator(behind.peek_past(1)) {
                        (Ok(MathExprView::Identifier(ident)), behind.step())
                    } else {
                        let (args, end) = ws_delimited(behind);
                        (Ok(MathExprView::FuncCall(ident, args)), end)
                    }
                } else {
                    (Ok(MathExprView::Identifier(ident)), behind)
                }
            },
        }
    } else {
        let (e, behind) = c.unexpected_token();
        (Err(e), behind)
    }
}

/// The statements and the diagnostics of a whole token stream, after those
/// in `nodes` and `errs`: statement after statement until no token is left.
/// A statement that fails leaves its diagnostic, and the next one begins
/// where the failed one stopped.
pub open spec fn parse_all(c: Cursor, nodes: Seq<AstNodeView>, errs: Seq<ParserErrView>) -> (
    Seq<AstNodeView>,
    Seq<ParserErrView>,
    Cursor,
)
    decreases c.tokens.len(),
{
    match parse_node(c.skip_empty()) {
        (Ok(None), behind) => (nodes, errs, behind),
        (Ok(Some(node)), behind) => if behind.shorter(c) {
            parse_all(behind, nodes.push(node), errs)
        } else {
            (nodes.push(node), errs, behind)
        },
        (Err(e), behind) => if behind.shorter(c) {
            parse_all(behind, nodes, errs.push(e))
        } else {
            (nodes, errs.push(e), behind)
        },
    }
}

/// Whether a rule that began at `from` and stopped at `to` handed back no
/// more tokens than it was given, and fewer if it was given any.
pub open spec fn progressed(from: Cursor, to: Cursor) -> bool {
    to.within(from) && (from.tokens.len() > 0 ==> to.shorter(from))
}

/// A statement takes a token, if there is one.
pub proof fn lemma_parse_node(c: Cursor)
    ensures
        progressed(c, parse_node(c).1),
        parse_node(c).0 == Ok::<Option<AstNodeView>, ParserErrView>(None) <==> c.tokens.len() == 0,
    decreases c.tokens.len(), 12nat,
{
    lemma_past_significant(c);
    lemma_parse_ident(c);
    if c.tokens.len() == 0 {
    } else if c.peek_past(0) == Some(TokenView::Return) {
        lemma_parse_expr(c.past_significant());
    } else {
        match parse_ident(c) {
            (Err(e), behind) => {},
            (Ok(target), behind) => {
                lemma_past_significant(behind);
                if behind.peek_past(0) == Some(TokenView::Assignment) {
                    lemma_parse_expr(behind.past_significant());
                } else {
                    lemma_ws_delimited(behind);
                }
            },
        }
    }
}

/// An argument list hands back no more tokens than it was given.
pub proof fn lemma_ws_delimited(c: Cursor)
    ensures
        ws_delimited(c).1.within(c),
    decreases c.tokens.len(), 11nat,
{
    if c.peek() == Some(TokenView::Whitespace) {
        lemma_ws_args(Cursor { ws_delim: true, ..c.step() }, seq![]);
    }
}

/// The arguments go on for as long as an expression parses and a single
/// space follows it.
pub proof fn lemma_ws_args(c: Cursor, args: Seq<ExpressionView>)
    ensures
        ws_args(c, args).1.within(c),
        ws_args(c, args) == match parse_expr(c) {
            (Err(_), behind) => (args, behind),
            (Ok(arg), behind) => if behind.peek() == Some(TokenView::Whitespace) {
                ws_args(behind.step(), args.push(arg))
            } else {
                (args.push(arg), behind)
            },
        },
    decreases c.tokens.len(), 11nat,
{
    lemma_parse_expr(c);
    match parse_expr(c) {
        (Err(_), behind) => {},
        (Ok(arg), behind) => {
            if behind.peek() == Some(TokenView::Whitespace) {
                lemma_ws_args(behind.step(), args.push(arg));
            }
        },
    }
}

/// What an expression begins with takes a token, if there is one.
pub proof fn lemma_primary_expr(c: Cursor)
    ensures
        progressed(c, primary_expr(c).1),
    decreases c.tokens.len(), 8nat,
{
    lemma_past_significant(c);
    if c.peek_past(0) matches Some(TokenView::StringLiteral(_)) {
    } else if c.peek_past(0) == Some(TokenView::Pipe) {
        lemma_func_literal(c);
    } else if c.peek_past(0) == Some(TokenView::FuncOpen) {
        lemma_function_body(c);
    } else {
        lemma_parse_math_expr(c);
    }
}

/// An expression is what it begins with and what commas join to that; it
/// takes a token, if there is one.
pub proof fn lemma_parse_expr(c: Cursor)
    ensures
        progressed(c, parse_expr(c).1),
        parse_expr(c) == match primary_expr(c) {
            (Err(e), behind) => (Err(e), behind),
            (Ok(first), behind) => more_exprs(behind, first),
        },
    decreases c.tokens.len(), 9nat,
{
    lemma_primary_expr(c);
    match primary_expr(c) {
        (Err(e), behind) => {},
        (Ok(first), behind) => {
            lemma_more_exprs(behind, first);
        },
    }
}

/// A function literal is its parameter list and its body.
pub proof fn lemma_func_literal(c: Cursor)
    requires
        c.peek_past(0) == Some(TokenView::Pipe),
    ensures
        progressed(c, func_literal(c).1),
        func_literal(c) == match parameters(c.past_significant(), seq![]) {
            (Err(e), behind) => (Err(e), behind),
            (Ok(params), behind) => match literal_body(behind) {
                (Err(e), end) => (Err(e), end),
                (Ok(statements), end) => (
                    Ok(
                        ExpressionView::FuncLiteral {
                            params,
                            statements,
                            return_type: TypeView::Undefined,
                        },
                    ),
                    end,
                ),
            },
        },
    decreases c.tokens.len(), 7nat,
{
    lemma_past_significant(c);
    lemma_parameters(c.past_significant(), seq![]);
    match parameters(c.past_significant(), seq![]) {
        (Err(e), behind) => {},
        (Ok(params), behind) => {
            if behind.peek_past(0) == Some(TokenView::FuncOpen) {
                lemma_function_body(behind);
            } else {
                lemma_parse_expr(behind);
            }
        },
    }
}

/// Each comma joins one more expression.
pub proof fn lemma_more_exprs(c: Cursor, expr: ExpressionView)
    ensures
        more_exprs(c, expr).1.within(c),
        more_exprs(c, expr) == if c.peek_past(0) == Some(TokenView::Comma) {
            match primary_expr(c.past_significant()) {
                (Err(e), behind) => (Err(e), behind),
                (Ok(rhs), behind) => more_exprs(behind, expr.compound(rhs)),
            }
        } else {
            (Ok(expr), c)
        },
    decreases c.tokens.len(), 1nat,
{
    if c.peek_past(0) == Some(TokenView::Comma) {
        lemma_past_significant(c);
        lemma_primary_expr(c.past_significant());
        match primary_expr(c.past_significant()) {
            (Err(e), behind) => {},
            (Ok(rhs), behind) => {
                lemma_more_exprs(behind, expr.compound(rhs));
            },
        }
    }
}

/// A block takes a token, if there is one.
pub proof fn lemma_function_body(c: Cursor)
    ensures
        progressed(c, function_body(c).1),
    decreases c.tokens.len(), 7nat,
{
    lemma_past_significant(c);
    match expect_token(c, TokenView::FuncOpen) {
        (Err(e), behind) => {},
        (Ok(_), behind) => {
            lemma_statements(behind, seq![]);
        },
    }
}

/// The statements of a block go on up to its closing brace.
pub proof fn lemma_statements(c: Cursor, nodes: Seq<AstNodeView>)
    ensures
        statements(c, nodes).1.within(c),
        statements(c, nodes) == if c.peek_past(0) == Some(TokenView::FuncClose) {
            close_body(c, nodes)
        } else {
            match parse_node(c) {
                (Err(e), behind) => (Err(e), behind),
                (Ok(None), behind) => close_body(behind, nodes),
                (Ok(Some(node)), behind) => statements(behind, nodes.push(node)),
            }
        },
    decreases c.tokens.len(), 13nat,
{
    lemma_past_significant(c);
    if c.peek_past(0) != Some(TokenView::FuncClose) {
        lemma_parse_node(c);
        match parse_node(c) {
            (Err(e), behind) => {},
            (Ok(None), behind) => {
                lemma_past_significant(behind);
            },
            (Ok(Some(node)), behind) => {
                lemma_statements(behind, nodes.push(node));
            },
        }
    }
}

/// An arithmetic expression is a term and the additions that follow it.
pub proof fn lemma_parse_math_expr(c: Cursor)
    ensures
        progressed(c, parse_math_expr(c).1),
        parse_math_expr(c) == match parse_multiplicative_expr(c) {
            (Err(e), behind) => (Err(e), behind),
            (Ok(left), behind) => additions(behind, left),
        },
    decreases c.tokens.len(), 6nat,
{
    lemma_parse_multiplicative_expr(c);
    match parse_multiplicative_expr(c) {
        (Err(e), behind) => {},
        (Ok(left), behind) => {
            lemma_additions(behind, left);
        },
    }
}

/// Each additive operator joins one more term, to the left.
pub proof fn lemma_additions(c: Cursor, left: MathExprView)
    ensures
        additions(c, left).1.within(c),
        additions(c, left) == match additive_op(c.peek_past(0)) {
            None => (Ok(left), c),
            Some(op) => match parse_multiplicative_expr(c.past_significant()) {
                (Err(e), behind) => (Err(e), behind),
                (Ok(right), behind) => additions(
                    behind,
                    MathExprView::BinaryOp(Box::new(left), Box::new(right), op),
                ),
            },
        },
    decreases c.tokens.len(), 1nat,
{
    match additive_op(c.peek_past(0)) {
        None => {},
        Some(op) => {
            lemma_past_significant(c);
            lemma_parse_multiplicative_expr(c.past_significant());
            match parse_multiplicative_expr(c.past_significant()) {
                (Err(e), behind) => {},
                (Ok(right), behind) => {
                    lemma_additions(
                        behind,
                        MathExprView::BinaryOp(Box::new(left), Box::new(right), op),
                    );
                },
            }
        },
    }
}

/// A term is a factor and the multiplications that follow it.
pub proof fn lemma_parse_multiplicative_expr(c: Cursor)
    ensures
        progressed(c, parse_multiplicative_expr(c).1),
        parse_multiplicative_expr(c) == match parse_parenth_expr(c) {
            (Err(e), behind) => (Err(e), behind),
            (Ok(left), behind) => multiplications(behind, left),
        },
    decreases c.tokens.len(), 5nat,
{
    lemma_parse_parenth_expr(c);
    match parse_parenth_expr(c) {
        (Err(e), behind) => {},
        (Ok(left), behind) => {
            lemma_multiplications(behind, left);
        },
    }
}

/// Each multiplicative operator joins one more factor, to the left.
pub proof fn lemma_multiplications(c: Cursor, left: MathExprView)
    ensures
        multiplications(c, left).1.within(c),
        multiplications(c, left) == match multiplicative_op(c.peek_past(0)) {
            None => (Ok(left), c),
            Some(op) => match parse_parenth_expr(c.past_significant()) {
                (Err(e), behind) => (Err(e), behind),
                (Ok(right), behind) => multiplications(
                    behind,
                    MathExprView::BinaryOp(Box::new(left), Box::new(right), op),
                ),
            },
        },
    decreases c.tokens.len(), 1nat,
{
    match multiplicative_op(c.peek_past(0)) {
        None => {},
        Some(op) => {
            lemma_past_significant(c);
            lemma_parse_parenth_expr(c.past_significant());
            match parse_parenth_expr(c.past_significant()) {
                (Err(e), behind) => {},
                (Ok(right), behind) => {
                    lemma_multiplications(
                        behind,
                        MathExprView::BinaryOp(Box::new(left), Box::new(right), op),
                    );
                },
            }
        },
    }
}

/// A factor takes a token, if there is one.
pub proof fn lemma_parse_parenth_expr(c: Cursor)
    ensures
        progressed(c, parse_parenth_expr(c).1),
    decreases c.tokens.len(), 4nat,
{
    lemma_past_significant(c);
    if c.peek_past(0) == Some(TokenView::ParenthOpen) {
        let inside = Cursor { in_parenth: true, ..c.past_significant() };
        lemma_parse_math_expr(inside);
        match parse_math_expr(inside) {
            (Err(e), behind) => {},
            (Ok(inner), behind) => {
                lemma_past_significant(Cursor { in_parenth: false, ..behind });
            },
        }
    } else {
        lemma_parse_unary_expr(c);
    }
}

/// A unary expression takes a token, if there is one.
pub proof fn lemma_parse_unary_expr(c: Cursor)
    ensures
        progressed(c, parse_unary_expr(c).1),
    decreases c.tokens.len(), 3nat,
{
    lemma_past_significant(c);
    lemma_parse_ident(c);
    if c.peek_past(0) == Some(TokenView::Subtraction) {
        lemma_parse_parenth_expr(c.past_significant());
    } else if c.peek_past(0) matches Some(TokenView::Number(_)) {
    } else if c.peek_past(0) matches Some(TokenView::Ident(_)) {
        match parse_ident(c) {
            (Err(e), behind) => {},
            (Ok(ident), behind) => {
                lemma_ws_delimited(behind);
            },
        }
    } else {
    }
}

/// A parse goes on, statement after statement and diagnostic after
/// diagnostic, until no token is left. Each statement and each diagnostic
/// costs a token at least.
pub proof fn lemma_parse_all(c: Cursor, nodes: Seq<AstNodeView>, errs: Seq<ParserErrView>)
    ensures
        parse_all(c, nodes, errs).2.tokens.len() == 0,
        parse_all(c, nodes, errs).0.len() + parse_all(c, nodes, errs).1.len() <= nodes.len()
            + errs.len() + c.tokens.len(),
        nodes.len() <= parse_all(c, nodes, errs).0.len(),
        errs.len() <= parse_all(c, nodes, errs).1.len(),
        parse_all(c, nodes, errs) == match parse_node(c.skip_empty()) {
            (Ok(None), behind) => (nodes, errs, behind),
            (Ok(Some(node)), behind) => parse_all(behind, nodes.push(node), errs),
            (Err(e), behind) => parse_all(behind, nodes, errs.push(e)),
        },
    decreases c.tokens.len(),
{
    lemma_skip_empty(c);
    lemma_parse_node(c.skip_empty());
    match parse_node(c.skip_empty()) {
        (Ok(None), behind) => {},
        (Ok(Some(node)), behind) => {
            lemma_parse_all(behind, nodes.push(node), errs);
        },
        (Err(e), behind) => {
            lemma_parse_all(behind, nodes, errs.push(e));
        },
    }
}

} // verus!
