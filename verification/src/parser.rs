//! The recursive-descent parser: a token stream to statements and
//! diagnostics.

use vstd::prelude::*;
use std::collections::VecDeque;
use crate::error::{error_views, lemma_error_views_push, ParserErr, ParserErrView};
use crate::grammar;
use crate::grammar::Cursor;
use crate::lexer::{fits_columns, lexed, Lexer};
use crate::nodes::{
    expression_views, lemma_expression_views_push, lemma_node_views_push,
    lemma_param_views_push, node_views, param_views, AstNode, AstNodeView, Expression,
    ExpressionView, Identifier, IdentifierView, MathExpr, MathExprView, MathOp,
};
use crate::text::{lines_of, split_lines, texts_of};
use crate::tokens::{token_views, Token, TokenView};
use crate::types::{Type, TypeView};

verus! {

/// The tokens that are still to be parsed, with the line count and the two
/// marks that the grammar keeps.
struct TokenStream {
    tokens: VecDeque<(Token, usize)>,
    line: usize,
    parsing_ws_delim: bool,
    ws_delim_in_parenth: bool,
}

impl View for TokenStream {
    type V = Cursor;

    closed spec fn view(&self) -> Cursor {
        Cursor {
            tokens: token_views(self.tokens@),
            line: self.line as int,
            ws_delim: self.parsing_ws_delim,
            in_parenth: self.ws_delim_in_parenth,
        }
    }
}

impl TokenStream {
    /// Whether every newline that is still to come can be counted.
    spec fn wf(&self) -> bool {
        self@.line + self@.tokens.len() <= usize::MAX
    }

    fn new() -> (stream: TokenStream)
        ensures
            stream@ == (Cursor { tokens: seq![], line: 0, ws_delim: false, in_parenth: false }),
            stream.wf(),
    {
        let stream = TokenStream {
            tokens: VecDeque::new(),
            line: 0,
            parsing_ws_delim: false,
            ws_delim_in_parenth: false,
        };
        assert(token_views(stream.tokens@) =~= seq![]);
        stream
    }

    fn peek(&self) -> (r: Option<&(Token, usize)>)
        ensures
            match r {
                Some(t) => self@.tokens.len() > 0 && self@.tokens[0] == (t.0@, t.1 as int),
                None => self@.tokens.len() == 0,
            },
    {
        if self.tokens.len() == 0 {
            None
        } else {
            Some(&self.tokens[0])
        }
    }

    fn next(&mut self) -> (r: Option<(Token, usize)>)
        requires
            old(self).wf(),
        ensures
            final(self).wf(),
            match r {
                Some(t) => old(self)@.next() == (Some((t.0@, t.1 as int)), final(self)@),
                None => old(self)@.next() == (None::<(TokenView, int)>, final(self)@),
            },
    {
        match self.tokens.pop_front() {
            None => None,
            Some(t) => {
                assert(token_views(self.tokens@) =~= token_views(old(self).tokens@).skip(1));
                if let Token::Newline = t.0 {
                    self.line += 1;
                }
                Some(t)
            },
        }
    }
}

/// The punctuation that the grammar requires in some places.
#[derive(Clone, Copy)]
enum Punct {
    ParenthClose,
    FuncOpen,
    FuncClose,
}

impl Punct {
    spec fn token(self) -> TokenView {
        match self {
            Punct::ParenthClose => TokenView::ParenthClose,
            Punct::FuncOpen => TokenView::FuncOpen,
            Punct::FuncClose => TokenView::FuncClose,
        }
    }

    fn is(self, token: &Token) -> (b: bool)
        ensures
            b == (token@ == self.token()),
    {
        match (self, token) {
            (Punct::ParenthClose, Token::ParenthClose) => true,
            (Punct::FuncOpen, Token::FuncOpen) => true,
            (Punct::FuncClose, Token::FuncClose) => true,
            _ => false,
        }
    }
}

/// The value of what a rule of the grammar yields: of its result, or of its
/// diagnostic.
pub open spec fn lift<T: View>(r: Result<T, ParserErr>) -> Result<T::V, ParserErrView> {
    match r {
        Ok(v) => Ok(v@),
        Err(e) => Err(e@),
    }
}

/// The value of a list of statements that a rule yields.
spec fn lift_nodes(r: Result<Vec<AstNode>, ParserErr>) -> Result<
    Seq<AstNodeView>,
    ParserErrView,
> {
    match r {
        Ok(v) => Ok(node_views(v@)),
        Err(e) => Err(e@),
    }
}

/// The value of the statement that a rule yields, if it yields one.
spec fn lift_node(r: Result<Option<AstNode>, ParserErr>) -> Result<
    Option<AstNodeView>,
    ParserErrView,
> {
    match r {
        Ok(Some(node)) => Ok(Some(node@)),
        Ok(None) => Ok(None),
        Err(e) => Err(e@),
    }
}

/// Whether a rule that went from `before` to `after` took a token, if there
/// was one.
spec fn moved(before: Cursor, after: Cursor) -> bool {
    after.within(before) && (before.tokens.len() > 0 ==> after.shorter(before))
}

impl TokenStream {
    fn skip_empty(&mut self)
        requires
            old(self).wf(),
        ensures
            final(self).wf(),
            final(self)@ == old(self)@.skip_empty(),
    {
        loop
            invariant
                self.wf(),
                self@.skip_empty() == old(self)@.skip_empty(),
            ensures
                self@ == old(self)@.skip_empty(),
            decreases self@.tokens.len(),
        {
            let insignificant = match self.peek() {
                Some(tok) => tok.0.is_insignificant(),
                None => false,
            };
            if !insignificant {
                break ;
            }
            self.next();
        }
    }

    /// The first significant token at or after the offset `skip`.
    fn peek_past(&self, skip: usize) -> (r: Option<&Token>)
        ensures
            match r {
                Some(t) => self@.peek_past(skip as int) == Some(t@),
                None => self@.peek_past(skip as int) is None,
            },
    {
        let mut current: usize = skip;
        while current < self.tokens.len()
            invariant
                skip <= current,
                self@.peek_past(current as int) == self@.peek_past(skip as int),
            decreases self.tokens.len() - current,
        {
            let t = &self.tokens[current];
            assert(self@.tokens[current as int].0 == t.0@);
            if !t.0.is_insignificant() {
                return Some(&t.0);
            }
            current = current + 1;
        }
        None
    }

    fn sees(&self, skip: usize, want: Sight) -> (b: bool)
        ensures
            b == want.matches(self@.peek_past(skip as int)),
    {
        match self.peek_past(skip) {
            None => false,
            Some(t) => match (want, t) {
                (Sight::Return, Token::Return) => true,
                (Sight::Assignment, Token::Assignment) => true,
                (Sight::StringLiteral, Token::StringLiteral(_)) => true,
                (Sight::Pipe, Token::Pipe) => true,
                (Sight::FuncOpen, Token::FuncOpen) => true,
                (Sight::FuncClose, Token::FuncClose) => true,
                (Sight::TypeAnnotator, Token::TypeAnnotator) => true,
                (Sight::Comma, Token::Comma) => true,
                (Sight::Period, Token::Period) => true,
                (Sight::ParenthOpen, Token::ParenthOpen) => true,
                (Sight::Subtraction, Token::Subtraction) => true,
                (Sight::Number, Token::Number(_)) => true,
                (Sight::Ident, Token::Ident(_)) => true,
                _ => false,
            },
        }
    }

    /// Whether a single space comes next.
    fn at_space(&self) -> (b: bool)
        ensures
            b == (self@.peek() == Some(TokenView::Whitespace)),
    {
        match self.peek() {
            Some((Token::Whitespace, _)) => true,
            _ => false,
        }
    }

    /// Skips insignificant tokens and takes the next one, with its column
    /// and the line count before it.
    fn take(&mut self) -> (r: Result<(Token, usize, usize), ParserErr>)
        requires
            old(self).wf(),
        ensures
            final(self).wf(),
            final(self)@ == old(self)@.past_significant(),
            match r {
                Ok((t, column, line)) => {
                    &&& old(self)@.skip_empty().next().0 == Some((t@, column as int))
                    &&& line == old(self)@.skip_empty().line
                    &&& line < usize::MAX
                },
                Err(e) => {
                    &&& old(self)@.skip_empty().next().0 is None
                    &&& e@ == ParserErrView::UnexpectedEOF
                },
            },
    {
        self.skip_empty();
        let line = self.line;
        match self.next() {
            Some((t, column)) => Ok((t, column, line)),
            None => Err(ParserErr::UnexpectedEOF),
        }
    }

    fn expect_ident(&mut self) -> (r: Result<String, ParserErr>)
        requires
            old(self).wf(),
        ensures
            final(self).wf(),
            (lift(r), final(self)@) == grammar::expect_ident(old(self)@),
    {
        let (token, column, line) = self.take()?;
        match token {
            Token::Ident(name) => Ok(name),
            other => Err(ParserErr::UnexpectedToken { line: line + 1, column, token: other }),
        }
    }

    fn expect_punct(&mut self, want: Punct) -> (r: Result<(), ParserErr>)
        requires
            old(self).wf(),
        ensures
            final(self).wf(),
            (lift(r), final(self)@) == grammar::expect_token(old(self)@, want.token()),
    {
        let (token, column, line) = self.take()?;
        if want.is(&token) {
            Ok(())
        } else {
            Err(ParserErr::UnexpectedToken { line: line + 1, column, token })
        }
    }
}

/// What the grammar looks for when it decides between its rules.
#[derive(Clone, Copy)]
enum Sight {
    Return,
    Assignment,
    StringLiteral,
    Pipe,
    FuncOpen,
    FuncClose,
    TypeAnnotator,
    Comma,
    Period,
    ParenthOpen,
    Subtraction,
    Number,
    Ident,
}

impl Sight {
    /// Whether `token` is of the kind looked for.
    spec fn matches(self, token: Option<TokenView>) -> bool {
        match self {
            Sight::Return => token == Some(TokenView::Return),
            Sight::Assignment => token == Some(TokenView::Assignment),
            Sight::StringLiteral => token matches Some(TokenView::StringLiteral(_)),
            Sight::Pipe => token == Some(TokenView::Pipe),
            Sight::FuncOpen => token == Some(TokenView::FuncOpen),
            Sight::FuncClose => token == Some(TokenView::FuncClose),
            Sight::TypeAnnotator => token == Some(TokenView::TypeAnnotator),
            Sight::Comma => token == Some(TokenView::Comma),
            Sight::Period => token == Some(TokenView::Period),
            Sight::ParenthOpen => token == Some(TokenView::ParenthOpen),
            Sight::Subtraction => token == Some(TokenView::Subtraction),
            Sight::Number => token matches Some(TokenView::Number(_)),
            Sight::Ident => token matches Some(TokenView::Ident(_)),
        }
    }
}

impl TokenStream {
    fn parse_type(&mut self) -> (r: Result<Type, ParserErr>)
        requires
            old(self).wf(),
        ensures
            final(self).wf(),
            (lift(r), final(self)@) == grammar::parse_type(old(self)@),
    {
        if self.sees(0, Sight::ParenthOpen) {
            self.skip_empty();
            self.next();
            let first = Type::Defined(self.expect_ident()?);
            let mut types: Vec<Type> = Vec::new();
            types.push(first);
            assert(crate::types::type_views(types@) =~= seq![first@]);
            while self.sees(0, Sight::Comma)
                invariant
                    self.wf(),
                    types@.len() >= 1,
                    grammar::parse_type(old(self)@) == grammar::type_list(
                        self@,
                        crate::types::type_views(types@),
                    ),
                decreases self@.tokens.len(),
            {
                proof {
                    grammar::lemma_past_significant(self@);
                    grammar::lemma_past_significant(self@.past_significant());
                }
                self.skip_empty();
                self.next();
                let next = Type::Defined(self.expect_ident()?);
                proof {
                    crate::types::lemma_type_views_push(types@, next);
                }
                types.push(next);
            }
            self.expect_punct(Punct::ParenthClose)?;
            if types.len() == 1 {
                match types.pop() {
                    Some(only) => Ok(only),
                    None => Ok(Type::Undefined),
                }
            } else {
                Ok(Type::Compound(types))
            }
        } else {
            let name = self.expect_ident()?;
            Ok(Type::Defined(name))
        }
    }

    fn parse_simple_ident(&mut self) -> (r: Result<Identifier, ParserErr>)
        requires
            old(self).wf(),
        ensures
            final(self).wf(),
            (lift(r), final(self)@) == grammar::parse_simple_ident(old(self)@),
    {
        let name = self.expect_ident()?;
        if self.sees(0, Sight::TypeAnnotator) {
            self.skip_empty();
            self.next();
            let declared = self.parse_type()?;
            return Ok(Identifier::Identifier(name, declared));
        }
        let mut ident = Identifier::Identifier(name, Type::Undefined);
        while self.sees(0, Sight::Period)
            invariant
                self.wf(),
                grammar::parse_simple_ident(old(self)@) == grammar::accessors(self@, ident@),
            decreases self@.tokens.len(),
        {
            proof {
                grammar::lemma_past_significant(self@);
                grammar::lemma_past_significant(self@.past_significant());
            }
            self.skip_empty();
            self.next();
            let field = Identifier::Identifier(self.expect_ident()?, Type::Undefined);
            let ghost object = ident@;
            let ghost name = field@;
            ident = Identifier::Accessor(Box::new(ident), Box::new(field));
            assert(ident@ == IdentifierView::Accessor(Box::new(object), Box::new(name)));
        }
        Ok(ident)
    }

    fn parse_ident(&mut self) -> (r: Result<Identifier, ParserErr>)
        requires
            old(self).wf(),
        ensures
            final(self).wf(),
            (lift(r), final(self)@) == grammar::parse_ident(old(self)@),
    {
        let mut ident = self.parse_simple_ident()?;
        while self.sees(0, Sight::Comma)
            invariant
                self.wf(),
                grammar::parse_ident(old(self)@) == grammar::more_idents(self@, ident@),
            decreases self@.tokens.len(),
        {
            proof {
                grammar::lemma_past_significant(self@);
                grammar::lemma_parse_simple_ident(self@.past_significant());
            }
            self.skip_empty();
            self.next();
            let rhs = self.parse_simple_ident()?;
            ident = ident.compound(rhs);
        }
        Ok(ident)
    }
}

impl TokenStream {
    /// The operator of the additive level that comes next, if one does.
    fn additive_op(&self) -> (op: Option<MathOp>)
        ensures
            op == grammar::additive_op(self@.peek_past(0)),
    {
        match self.peek_past(0) {
            Some(Token::Addition) => Some(MathOp::Add),
            Some(Token::Subtraction) => Some(MathOp::Sub),
            _ => None,
        }
    }

    /// The operator of the multiplicative level that comes next, if one
    /// does.
    fn multiplicative_op(&self) -> (op: Option<MathOp>)
        ensures
            op == grammar::multiplicative_op(self@.peek_past(0)),
    {
        match self.peek_past(0) {
            Some(Token::Multiplication) => Some(MathOp::Mul),
            Some(Token::Division) => Some(MathOp::Div),
            Some(Token::Power) => Some(MathOp::Pow),
            Some(Token::Mod) => Some(MathOp::Mod),
            _ => None,
        }
    }

    /// Whether an operator is the first significant token from `skip` on.
    fn sees_operator(&self, skip: usize) -> (b: bool)
        ensures
            b == grammar::is_operator(self@.peek_past(skip as int)),
    {
        match self.peek_past(skip) {
            Some(Token::Addition) => true,
            Some(Token::Subtraction) => true,
            Some(Token::Multiplication) => true,
            Some(Token::Division) => true,
            Some(Token::Power) => true,
            Some(Token::Mod) => true,
            _ => false,
        }
    }

    fn unexpected_token(&mut self) -> (e: ParserErr)
        requires
            old(self).wf(),
        ensures
            final(self).wf(),
            (e@, final(self)@) == old(self)@.unexpected_token(),
            moved(old(self)@, final(self)@),
    {
        let line = self.line;
        match self.next() {
            Some((token, column)) => ParserErr::UnexpectedToken { line: line + 1, column, token },
            None => ParserErr::UnexpectedEOF,
        }
    }

    fn parse_node(&mut self) -> (r: Result<Option<AstNode>, ParserErr>)
        requires
            old(self).wf(),
        ensures
            final(self).wf(),
            (lift_node(r), final(self)@) == grammar::parse_node(old(self)@),
            moved(old(self)@, final(self)@),
        decreases old(self)@.tokens.len(), 10nat,
    {
        proof {
            grammar::lemma_past_significant(self@);
            grammar::lemma_parse_ident(self@);
        }
        if self.peek().is_none() {
            return Ok(None);
        }
        if self.sees(0, Sight::Return) {
            self.skip_empty();
            self.next();
            let expr = self.parse_expr()?;
            return Ok(Some(AstNode::Return(expr)));
        }
        let ident = self.parse_ident()?;
        proof {
            grammar::lemma_past_significant(self@);
        }
        if self.sees(0, Sight::Assignment) {
            self.skip_empty();
            self.next();
            let expr = self.parse_expr()?;
            return Ok(Some(AstNode::Assignment(ident, expr)));
        }
        let args = self.parse_ws_delimited_exprs();
        Ok(Some(AstNode::ImpFuncCall(ident, args)))
    }

    fn parse_expr(&mut self) -> (r: Result<Expression, ParserErr>)
        requires
            old(self).wf(),
        ensures
            final(self).wf(),
            (lift(r), final(self)@) == grammar::parse_expr(old(self)@),
            moved(old(self)@, final(self)@),
        decreases old(self)@.tokens.len(), 9nat,
    {
        let mut expr = self.parse_primary_expr()?;
        while self.sees(0, Sight::Comma)
            invariant
                self.wf(),
                moved(old(self)@, self@),
                grammar::parse_expr(old(self)@) == grammar::more_exprs(self@, expr@),
            decreases self@.tokens.len(),
        {
            proof {
                grammar::lemma_past_significant(self@);
            }
            self.skip_empty();
            self.next();
            let rhs = self.parse_primary_expr()?;
            expr = expr.compound(rhs);
        }
        Ok(expr)
    }

    /// What an expression begins with: a string literal, a function literal
    /// or an arithmetic expression.
    fn parse_primary_expr(&mut self) -> (r: Result<Expression, ParserErr>)
        requires
            old(self).wf(),
        ensures
            final(self).wf(),
            (lift(r), final(self)@) == grammar::primary_expr(old(self)@),
            moved(old(self)@, final(self)@),
        decreases old(self)@.tokens.len(), 8nat,
    {
        proof {
            grammar::lemma_past_significant(self@);
        }
        if self.sees(0, Sight::StringLiteral) {
            let (token, column, line) = self.take()?;
            match token {
                Token::StringLiteral(text) => Ok(Expression::StrLiteral(text)),
                other => Err(ParserErr::UnexpectedToken { line: line + 1, column, token: other }),
            }
        } else if self.sees(0, Sight::Pipe) {
            self.parse_func_literal()
        } else if self.sees(0, Sight::FuncOpen) {
            let statements = self.parse_function_body()?;
            let params: Vec<(String, Type)> = Vec::new();
            assert(param_views(params@) =~= seq![]);
            Ok(Expression::FuncLiteral { params, statements, return_type: Type::Undefined })
        } else {
            Ok(Expression::MathExpr(self.parse_math_expr()?))
        }
    }

    fn parse_func_literal(&mut self) -> (r: Result<Expression, ParserErr>)
        requires
            old(self).wf(),
            old(self)@.peek_past(0) == Some(TokenView::Pipe),
        ensures
            final(self).wf(),
            (lift(r), final(self)@) == grammar::func_literal(old(self)@),
            moved(old(self)@, final(self)@),
        decreases old(self)@.tokens.len(), 7nat,
    {
        proof {
            grammar::lemma_past_significant(self@);
        }
        self.skip_empty();
        self.next();
        let mut params: Vec<(String, Type)> = Vec::new();
        assert(param_views(params@) =~= seq![]);
        loop
            invariant_except_break
                grammar::parameters(old(self)@.past_significant(), seq![]) == grammar::parameters(
                    self@,
                    param_views(params@),
                ),
            invariant
                self.wf(),
                self@.shorter(old(self)@),
            ensures
                self.wf(),
                self@.shorter(old(self)@),
                grammar::parameters(old(self)@.past_significant(), seq![]) == (
                    Ok::<Seq<(Seq<char>, TypeView)>, ParserErrView>(param_views(params@)),
                    self@,
                ),
            decreases self@.tokens.len(),
        {
            proof {
                grammar::lemma_past_significant(self@);
            }
            let ghost before = self@;
            let name = self.expect_ident()?;
            proof {
                grammar::lemma_past_significant(self@);
                grammar::lemma_parse_type(self@.past_significant());
            }
            let declared = if self.sees(0, Sight::TypeAnnotator) {
                self.skip_empty();
                self.next();
                self.parse_type()?
            } else {
                Type::Undefined
            };
            proof {
                lemma_param_views_push(params@, (name, declared));
            }
            params.push((name, declared));
            if self.at_space() {
                self.next();
            }
            proof {
                grammar::lemma_past_significant(self@);
            }
            if self.sees(0, Sight::Pipe) {
                self.skip_empty();
                self.next();
                break ;
            }
        }
        let statements = if self.sees(0, Sight::FuncOpen) {
            self.parse_function_body()?
        } else {
            let value = self.parse_expr()?;
            let mut body: Vec<AstNode> = Vec::new();
            body.push(AstNode::Return(value));
            assert(node_views(body@) =~= seq![AstNodeView::Return(value@)]);
            body
        };
        Ok(Expression::FuncLiteral { params, statements, return_type: Type::Undefined })
    }

    fn parse_function_body(&mut self) -> (r: Result<Vec<AstNode>, ParserErr>)
        requires
            old(self).wf(),
        ensures
            final(self).wf(),
            (lift_nodes(r), final(self)@) == grammar::function_body(old(self)@),
            moved(old(self)@, final(self)@),
        decreases old(self)@.tokens.len(), 7nat,
    {
        proof {
            grammar::lemma_past_significant(self@);
        }
        let mut result: Vec<AstNode> = Vec::new();
        assert(node_views(result@) =~= seq![]);
        self.expect_punct(Punct::FuncOpen)?;
        loop
            invariant_except_break
                grammar::function_body(old(self)@) == grammar::statements(
                    self@,
                    node_views(result@),
                ),
            invariant
                self.wf(),
                self@.shorter(old(self)@),
            ensures
                self.wf(),
                self@.shorter(old(self)@),
                grammar::function_body(old(self)@) == grammar::close_body(
                    self@,
                    node_views(result@),
                ),
            decreases self@.tokens.len(),
        {
            if self.sees(0, Sight::FuncClose) {
                break ;
            }
            match self.parse_node()? {
                Some(ast) => {
                    proof {
                        lemma_node_views_push(result@, ast);
                    }
                    result.push(ast);
                },
                None => {
                    break ;
                },
            }
        }
        proof {
            grammar::lemma_past_significant(self@);
        }
        self.expect_punct(Punct::FuncClose)?;
        Ok(result)
    }

    fn parse_ws_delimited_exprs(&mut self) -> (args: Vec<Expression>)
        requires
            old(self).wf(),
        ensures
            final(self).wf(),
            (expression_views(args@), final(self)@) == grammar::ws_delimited(old(self)@),
            final(self)@.within(old(self)@),
        decreases old(self)@.tokens.len(), 9nat,
    {
        let mut exprs: Vec<Expression> = Vec::new();
        assert(expression_views(exprs@) =~= seq![]);
        if self.at_space() {
            self.next();
            self.parsing_ws_delim = true;
            let ghost start = self@;
            loop
                invariant_except_break
                    grammar::ws_args(start, seq![]) == grammar::ws_args(
                        self@,
                        expression_views(exprs@),
                    ),
                invariant
                    self.wf(),
                    self@.shorter(old(self)@),
                ensures
                    self.wf(),
                    self@.shorter(old(self)@),
                    grammar::ws_args(start, seq![]) == (expression_views(exprs@), self@),
                decreases self@.tokens.len(),
            {
                match self.parse_expr() {
                    Err(_) => {
                        break ;
                    },
                    Ok(expr) => {
                        proof {
                            lemma_expression_views_push(exprs@, expr);
                        }
                        exprs.push(expr);
                        if self.at_space() {
                            self.next();
                        } else {
                            break ;
                        }
                    },
                }
            }
            self.parsing_ws_delim = false;
        }
        exprs
    }

    fn parse_math_expr(&mut self) -> (r: Result<MathExpr, ParserErr>)
        requires
            old(self).wf(),
        ensures
            final(self).wf(),
            (lift(r), final(self)@) == grammar::parse_math_expr(old(self)@),
            moved(old(self)@, final(self)@),
        decreases old(self)@.tokens.len(), 6nat,
    {
        let mut left = self.parse_multiplicative_expr()?;
        loop
            invariant_except_break
                grammar::parse_math_expr(old(self)@) == grammar::additions(self@, left@),
            invariant
                self.wf(),
                moved(old(self)@, self@),
            ensures
                self.wf(),
                moved(old(self)@, self@),
                grammar::parse_math_expr(old(self)@) == (
                    Ok::<MathExprView, ParserErrView>(left@),
                    self@,
                ),
            decreases self@.tokens.len(),
        {
            let operation = match self.additive_op() {
                Some(op) => op,
                None => {
                    break ;
                },
            };
            proof {
                grammar::lemma_past_significant(self@);
            }
            self.skip_empty();
            self.next();
            let right = self.parse_multiplicative_expr()?;
            let ghost lhs = left@;
            left = MathExpr::BinaryOp(Box::new(left), Box::new(right), operation);
            assert(left@ == MathExprView::BinaryOp(Box::new(lhs), Box::new(right@), operation));
        }
        Ok(left)
    }

    fn parse_multiplicative_expr(&mut self) -> (r: Result<MathExpr, ParserErr>)
        requires
            old(self).wf(),
        ensures
            final(self).wf(),
            (lift(r), final(self)@) == grammar::parse_multiplicative_expr(old(self)@),
            moved(old(self)@, final(self)@),
        decreases old(self)@.tokens.len(), 5nat,
    {
        let mut left = self.parse_parenth_expr()?;
        loop
            invariant_except_break
                grammar::parse_multiplicative_expr(old(self)@) == grammar::multiplications(
                    self@,
                    left@,
                ),
            invariant
                self.wf(),
                moved(old(self)@, self@),
            ensures
                self.wf(),
                moved(old(self)@, self@),
                grammar::parse_multiplicative_expr(old(self)@) == (
                    Ok::<MathExprView, ParserErrView>(left@),
                    self@,
                ),
            decreases self@.tokens.len(),
        {
            let operation = match self.multiplicative_op() {
                Some(op) => op,
                None => {
                    break ;
                },
            };
            proof {
                grammar::lemma_past_significant(self@);
            }
            self.skip_empty();
            self.next();
            let right = self.parse_parenth_expr()?;
            let ghost lhs = left@;
            left = MathExpr::BinaryOp(Box::new(left), Box::new(right), operation);
            assert(left@ == MathExprView::BinaryOp(Box::new(lhs), Box::new(right@), operation));
        }
        Ok(left)
    }

    fn parse_parenth_expr(&mut self) -> (r: Result<MathExpr, ParserErr>)
        requires
            old(self).wf(),
        ensures
            final(self).wf(),
            (lift(r), final(self)@) == grammar::parse_parenth_expr(old(self)@),
            moved(old(self)@, final(self)@),
        decreases old(self)@.tokens.len(), 4nat,
    {
        proof {
            grammar::lemma_past_significant(self@);
        }
        if self.sees(0, Sight::ParenthOpen) {
            self.skip_empty();
            self.next();
            self.ws_delim_in_parenth = true;
            let result = self.parse_math_expr()?;
            self.ws_delim_in_parenth = false;
            proof {
                grammar::lemma_past_significant(self@);
            }
            self.expect_punct(Punct::ParenthClose)?;
            return Ok(result);
        }
        self.parse_unary_expr()
    }

    fn parse_unary_expr(&mut self) -> (r: Result<MathExpr, ParserErr>)
        requires
            old(self).wf(),
        ensures
            final(self).wf(),
            (lift(r), final(self)@) == grammar::parse_unary_expr(old(self)@),
            moved(old(self)@, final(self)@),
        decreases old(self)@.tokens.len(), 3nat,
    {
        proof {
            grammar::lemma_past_significant(self@);
            grammar::lemma_parse_ident(self@);
        }
        if self.sees(0, Sight::Subtraction) {
            self.skip_empty();
            self.next();
            let inner = self.parse_parenth_expr()?;
            Ok(MathExpr::Negate(Box::new(inner)))
        } else if self.sees(0, Sight::Number) {
            let (token, column, line) = self.take()?;
            match token {
                Token::Number(n) => Ok(MathExpr::Literal(n)),
                other => Err(ParserErr::UnexpectedToken { line: line + 1, column, token: other }),
            }
        } else if self.sees(0, Sight::Ident) {
            let ident = self.parse_ident()?;
            if self.parsing_ws_delim && !self.ws_delim_in_parenth {
                Ok(MathExpr::Identifier(ident))
            } else if self.at_space() {
                if self.sees_operator(1) {
                    self.next();
                    Ok(MathExpr::Identifier(ident))
                } else {
                    let args = self.parse_ws_delimited_exprs();
                    Ok(MathExpr::FuncCall(ident, args))
                }
            } else {
                Ok(MathExpr::Identifier(ident))
            }
        } else {
            Err(self.unexpected_token())
        }
    }

    fn parse(&mut self) -> (r: (Vec<AstNode>, Vec<ParserErr>))
        requires
            old(self).wf(),
        ensures
            final(self).wf(),
            (node_views(r.0@), error_views(r.1@), final(self)@) == grammar::parse_all(
                old(self)@,
                seq![],
                seq![],
            ),
            final(self)@.tokens.len() == 0,
    {
        let mut result: Vec<AstNode> = Vec::new();
        let mut errs: Vec<ParserErr> = Vec::new();
        assert(node_views(result@) =~= seq![]);
        assert(error_views(errs@) =~= seq![]);
        loop
            invariant_except_break
                grammar::parse_all(old(self)@, seq![], seq![]) == grammar::parse_all(
                    self@,
                    node_views(result@),
                    error_views(errs@),
                ),
            invariant
                self.wf(),
            ensures
                self.wf(),
                self@.tokens.len() == 0,
                grammar::parse_all(old(self)@, seq![], seq![]) == (
                    node_views(result@),
                    error_views(errs@),
                    self@,
                ),
            decreases self@.tokens.len(),
        {
            proof {
                grammar::lemma_skip_empty(self@);
            }
            self.skip_empty();
            match self.parse_node() {
                Ok(Some(node)) => {
                    proof {
                        lemma_node_views_push(result@, node);
                    }
                    result.push(node);
                },
                Ok(None) => {
                    break ;
                },
                Err(err) => {
                    proof {
                        lemma_error_views_push(errs@, err);
                    }
                    errs.push(err);
                },
            }
        }
        (result, errs)
    }
}

/// A parser over the tokens of one source text.
pub struct PropsParser {
    stream: TokenStream,
    source: Vec<String>,
}

impl View for PropsParser {
    type V = Cursor;

    /// Where the parser stands in its token stream.
    closed spec fn view(&self) -> Cursor {
        self.stream@
    }
}

impl PropsParser {
    /// Whether the line count can follow every newline that is still to
    /// come. A parser made by `new` or `init` is well formed, and parsing
    /// keeps it so.
    pub open spec fn wf(&self) -> bool {
        self@.line + self@.tokens.len() <= usize::MAX
    }

    /// The lines of the source text that the parser was initialized with.
    pub closed spec fn source_lines(&self) -> Seq<Seq<char>> {
        texts_of(self.source@)
    }

    /// A parser without tokens.
    pub fn new() -> (parser: PropsParser)
        ensures
            parser.wf(),
            parser@ == (Cursor { tokens: seq![], line: 0, ws_delim: false, in_parenth: false }),
            parser.source_lines() == Seq::<Seq<char>>::empty(),
    {
        let source: Vec<String> = Vec::new();
        assert(texts_of(source@) =~= Seq::<Seq<char>>::empty());
        PropsParser { stream: TokenStream::new(), source }
    }

    /// Lexes `source` and puts the parser at the start of its tokens.
    pub fn init(&mut self, source: String)
        requires
            fits_columns(source@),
        ensures
            final(self).wf(),
            final(self)@ == (Cursor {
                tokens: lexed(source@),
                line: 0,
                ws_delim: false,
                in_parenth: false,
            }),
            final(self).source_lines() == lines_of(source@),
    {
        let mut tokens = Lexer::lex(source.as_str());
        let ghost all = tokens@;
        let mut queue: VecDeque<(Token, usize)> = VecDeque::new();
        while tokens.len() > 0
            invariant
                tokens@ + queue@ == all,
            decreases tokens.len(),
        {
            let ghost before = tokens@;
            match tokens.pop() {
                Some(last) => {
                    queue.push_front(last);
                    assert(before =~= tokens@.push(last));
                    assert(tokens@ + queue@ =~= before + queue@.skip(1));
                },
                None => {},
            }
        }
        assert(queue@ =~= all);
        assert(token_views(queue@).len() == queue.len());
        self.stream = TokenStream {
            tokens: queue,
            line: 0,
            parsing_ws_delim: false,
            ws_delim_in_parenth: false,
        };
        self.source = split_lines(source.as_str());
    }

    /// The lines of the source text, for rendering diagnostics against.
    pub fn source(&self) -> (lines: &Vec<String>)
        ensures
            texts_of(lines@) == self.source_lines(),
    {
        &self.source
    }

    /// Parses all the tokens that are left: the statements in order, and
    /// the diagnostics of the statements that failed, in order. Where the
    /// tokens run out in the middle of a statement, `UnexpectedEOF` is the
    /// last diagnostic.
    pub fn parse(&mut self) -> (r: (Vec<AstNode>, Vec<ParserErr>))
        requires
            old(self).wf(),
        ensures
            final(self).wf(),
            (node_views(r.0@), error_views(r.1@), final(self)@) == grammar::parse_all(
                old(self)@,
                seq![],
                seq![],
            ),
            final(self)@.tokens.len() == 0,
            final(self).source_lines() == old(self).source_lines(),
    {
        self.stream.parse()
    }

    /// Parses one identifier at the cursor.
    pub fn parse_ident(&mut self) -> (r: Result<Identifier, ParserErr>)
        requires
            old(self).wf(),
        ensures
            final(self).wf(),
            (lift(r), final(self)@) == grammar::parse_ident(old(self)@),
            final(self).source_lines() == old(self).source_lines(),
    {
        self.stream.parse_ident()
    }

    /// Parses one arithmetic expression at the cursor.
    pub fn parse_math_expr(&mut self) -> (r: Result<MathExpr, ParserErr>)
        requires
            old(self).wf(),
        ensures
            final(self).wf(),
            (lift(r), final(self)@) == grammar::parse_math_expr(old(self)@),
            final(self).source_lines() == old(self).source_lines(),
    {
        self.stream.parse_math_expr()
    }
}

} // verus!
