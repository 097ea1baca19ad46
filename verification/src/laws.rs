//! Laws of the grammar, stated of the significant tokens at a cursor:
//! whatever whitespace, newlines and indentation stand between them.

use vstd::prelude::*;
use crate::error::ParserErrView;
use crate::grammar::{
    accessors, additions, additive_op, expect_ident, expect_number, expect_token,
    is_operator, lemma_additions, lemma_more_exprs, lemma_multiplications, lemma_parse_expr,
    lemma_parse_math_expr, lemma_parse_multiplicative_expr, lemma_past_significant,
    lemma_skip_empty, more_exprs, more_idents, multiplications, multiplicative_op, parse_expr,
    parse_ident, parse_math_expr, parse_multiplicative_expr, parse_node, parse_parenth_expr,
    parse_simple_ident, parse_type, parse_unary_expr, primary_expr, Cursor, };
use crate::nodes::{AstNodeView, ExpressionView, IdentifierView, MathExprView, MathOp};
use crate::tokens::TokenView;
use crate::types::number::NumberView;
use crate::types::TypeView;

verus! {

impl Cursor {
    /// The cursor behind the first `k` significant tokens.
    pub open spec fn behind(self, k: nat) -> Cursor
        decreases k,
    {
        if k == 0 {
            self
        } else {
            self.behind((k - 1) as nat).past_significant()
        }
    }

    /// The significant token that `k` significant tokens stand before, if
    /// there is one.
    pub open spec fn significant(self, k: nat) -> Option<TokenView> {
        self.behind(k).peek_past(0)
    }

    /// Whether the significant tokens begin with `tokens`.
    pub open spec fn begins_with(self, tokens: Seq<TokenView>) -> bool {
        forall|k: nat| k < tokens.len() ==> self.significant(k) == Some(#[trigger] tokens[k as int])
    }
}

/// A numeric literal as an arithmetic expression.
pub open spec fn literal(n: NumberView) -> MathExprView {
    MathExprView::Literal(n)
}

/// A binary operation.
pub open spec fn binary(lhs: MathExprView, op: MathOp, rhs: MathExprView) -> MathExprView {
    MathExprView::BinaryOp(Box::new(lhs), Box::new(rhs), op)
}

/// A negation.
pub open spec fn negate(inner: MathExprView) -> MathExprView {
    MathExprView::Negate(Box::new(inner))
}

/// A name without a declared type.
pub open spec fn plain(name: Seq<char>) -> IdentifierView {
    IdentifierView::Identifier(name, TypeView::Undefined)
}

/// The cursor behind `k + 1` significant tokens is the one behind the first
/// significant token behind `k`.
pub proof fn lemma_behind_next(c: Cursor, k: nat)
    ensures
        c.behind(0) == c,
        c.behind(k + 1) == c.behind(k).past_significant(),
{
}

/// A numeric literal is a factor.
pub proof fn law_literal_is_a_factor(c: Cursor, n: NumberView)
    requires
        c.significant(0) == Some(TokenView::Number(n)),
    ensures
        parse_parenth_expr(c) == (Ok::<MathExprView, ParserErrView>(literal(n)), c.behind(1)),
{
    lemma_skip_empty(c);
    assert(c.behind(1) == c.past_significant()) by {
        lemma_behind_next(c, 0);
    }
    assert(parse_unary_expr(c) == expect_number(c));
}

/// A minus sign negates the factor behind it.
pub proof fn law_minus_negates_a_factor(c: Cursor)
    requires
        c.significant(0) == Some(TokenView::Subtraction),
    ensures
        parse_parenth_expr(c) == match parse_parenth_expr(c.behind(1)) {
            (Err(e), end) => (Err(e), end),
            (Ok(inner), end) => (Ok(negate(inner)), end),
        },
{
    assert(c.behind(1) == c.past_significant()) by {
        lemma_behind_next(c, 0);
    }
    assert(parse_parenth_expr(c) == parse_unary_expr(c));
}

/// Parentheses hold a whole arithmetic expression, which is a factor.
pub proof fn law_parentheses_hold_an_expression(c: Cursor)
    requires
        c.significant(0) == Some(TokenView::ParenthOpen),
    ensures
        parse_parenth_expr(c) == match parse_math_expr(
            Cursor { in_parenth: true, ..c.behind(1) },
        ) {
            (Err(e), end) => (Err(e), end),
            (Ok(inner), end) => match expect_token(
                Cursor { in_parenth: false, ..end },
                TokenView::ParenthClose,
            ) {
                (Err(e), closed) => (Err(e), closed),
                (Ok(_), closed) => (Ok(inner), closed),
            },
        },
{
    assert(c.behind(1) == c.past_significant()) by {
        lemma_behind_next(c, 0);
    }
}

/// A factor with no multiplicative operator behind it is a term, and a term
/// with no additive operator behind it is an arithmetic expression.
pub proof fn law_factor_alone(c: Cursor, value: MathExprView, end: Cursor)
    requires
        parse_parenth_expr(c) == (Ok::<MathExprView, ParserErrView>(value), end),
        multiplicative_op(end.significant(0)) is None,
    ensures
        parse_multiplicative_expr(c) == (Ok::<MathExprView, ParserErrView>(value), end),
        additive_op(end.significant(0)) is None ==> parse_math_expr(c) == (
            Ok::<MathExprView, ParserErrView>(value),
            end,
        ),
{
    lemma_parse_multiplicative_expr(c);
    lemma_multiplications(end, value);
    lemma_parse_math_expr(c);
    lemma_additions(end, value);
}

/// Operators of the multiplicative level group to the left: behind the
/// factors `a` and `b`, joined by one of them, a second one joins the next
/// factor to both. Power is such an operator, as multiplication, division
/// and remainder are.
pub proof fn law_multiplicative_level_groups_left(
    c: Cursor,
    a: MathExprView,
    op1: MathOp,
    b: MathExprView,
    op2: MathOp,
    d: MathExprView,
    c1: Cursor,
    c2: Cursor,
    c3: Cursor,
)
    requires
        multiplicative_op(c.significant(0)) == Some(op1),
        parse_parenth_expr(c.behind(1)) == (Ok::<MathExprView, ParserErrView>(b), c1),
        multiplicative_op(c1.significant(0)) == Some(op2),
        parse_parenth_expr(c1.behind(1)) == (Ok::<MathExprView, ParserErrView>(d), c2),
    ensures
        multiplications(c, a) == multiplications(c2, binary(binary(a, op1, b), op2, d)),
        multiplicative_op(Some(TokenView::Power)) == Some(MathOp::Pow),
        multiplicative_op(Some(TokenView::Multiplication)) == Some(MathOp::Mul),
        multiplicative_op(Some(TokenView::Division)) == Some(MathOp::Div),
        multiplicative_op(Some(TokenView::Mod)) == Some(MathOp::Mod),
{
    lemma_behind_next(c, 0);
    lemma_behind_next(c1, 0);
    lemma_multiplications(c, a);
    lemma_multiplications(c1, binary(a, op1, b));
}

/// Operators of the additive level group to the left: behind the terms `a`
/// and `b`, joined by one of them, a second one joins the next term to
/// both.
pub proof fn law_additive_level_groups_left(
    c: Cursor,
    a: MathExprView,
    op1: MathOp,
    b: MathExprView,
    op2: MathOp,
    d: MathExprView,
    c1: Cursor,
    c2: Cursor,
)
    requires
        additive_op(c.significant(0)) == Some(op1),
        parse_multiplicative_expr(c.behind(1)) == (Ok::<MathExprView, ParserErrView>(b), c1),
        additive_op(c1.significant(0)) == Some(op2),
        parse_multiplicative_expr(c1.behind(1)) == (Ok::<MathExprView, ParserErrView>(d), c2),
    ensures
        additions(c, a) == additions(c2, binary(binary(a, op1, b), op2, d)),
{
    lemma_behind_next(c, 0);
    lemma_behind_next(c1, 0);
    lemma_additions(c, a);
    lemma_additions(c1, binary(a, op1, b));
}

/// Three numeric literals joined by two operators: the tree that the two
/// operators' levels ask for. An operator of the multiplicative level binds
/// tighter than one of the additive level; two operators of one level group
/// to the left.
pub open spec fn joined(
    a: NumberView,
    op1: MathOp,
    b: NumberView,
    op2: MathOp,
    d: NumberView,
) -> MathExprView {
    if is_additive(op1) && !is_additive(op2) {
        binary(literal(a), op1, binary(literal(b), op2, literal(d)))
    } else {
        binary(binary(literal(a), op1, literal(b)), op2, literal(d))
    }
}

/// Whether the operator stands on the additive level.
pub open spec fn is_additive(op: MathOp) -> bool {
    op == MathOp::Add || op == MathOp::Sub
}

/// The operator that a token writes, on whichever level.
pub open spec fn operator(token: Option<TokenView>) -> Option<MathOp> {
    match additive_op(token) {
        Some(op) => Some(op),
        None => multiplicative_op(token),
    }
}

/// Precedence and grouping: where the significant tokens at a cursor are
/// three numeric literals with an operator between each two, and no
/// operator follows them, the arithmetic expression there is the tree that
/// the operators' levels ask for, and it ends behind the third literal.
pub proof fn law_precedence(
    c: Cursor,
    a: NumberView,
    op1: MathOp,
    b: NumberView,
    op2: MathOp,
    d: NumberView,
)
    requires
        c.significant(0) == Some(TokenView::Number(a)),
        operator(c.significant(1)) == Some(op1),
        c.significant(2) == Some(TokenView::Number(b)),
        operator(c.significant(3)) == Some(op2),
        c.significant(4) == Some(TokenView::Number(d)),
        !is_operator(c.significant(5)),
    ensures
        parse_math_expr(c) == (
            Ok::<MathExprView, ParserErrView>(joined(a, op1, b, op2, d)),
            c.behind(5),
        ),
{
    lemma_behind_next(c, 0);
    lemma_behind_next(c, 1);
    lemma_behind_next(c, 2);
    lemma_behind_next(c, 3);
    lemma_behind_next(c, 4);
    let c1 = c.behind(1);
    let c2 = c.behind(2);
    let c3 = c.behind(3);
    let c4 = c.behind(4);
    let c5 = c.behind(5);
    law_literal_is_a_factor(c, a);
    law_literal_is_a_factor(c2, b);
    law_literal_is_a_factor(c4, d);
    lemma_parse_math_expr(c);
    lemma_parse_multiplicative_expr(c);
    lemma_parse_multiplicative_expr(c2);
    lemma_parse_multiplicative_expr(c4);
    lemma_multiplications(c1, literal(a));
    lemma_multiplications(c3, literal(b));
    lemma_multiplications(c3, binary(literal(a), op1, literal(b)));
    lemma_multiplications(c5, literal(d));
    lemma_multiplications(c5, binary(literal(b), op2, literal(d)));
    lemma_multiplications(c5, binary(binary(literal(a), op1, literal(b)), op2, literal(d)));
    lemma_additions(c1, literal(a));
    lemma_additions(c3, literal(a));
    lemma_additions(c3, binary(literal(a), op1, literal(b)));
    lemma_additions(c5, binary(literal(a), op1, binary(literal(b), op2, literal(d))));
    lemma_additions(c5, binary(binary(literal(a), op1, literal(b)), op2, literal(d)));
}

/// The same cursor with other marks.
pub open spec fn marked(c: Cursor, ws_delim: bool, in_parenth: bool) -> Cursor {
    Cursor { ws_delim, in_parenth, ..c }
}

proof fn lemma_marked_skip(c: Cursor, ws_delim: bool, in_parenth: bool)
    ensures
        marked(c, ws_delim, in_parenth).skip_empty() == marked(
            c.skip_empty(),
            ws_delim,
            in_parenth,
        ),
    decreases c.tokens.len(),
{
    if c.tokens.len() > 0 && c.tokens[0].0.is_insignificant() {
        lemma_marked_skip(c.step(), ws_delim, in_parenth);
        assert(marked(c, ws_delim, in_parenth).step() == marked(c.step(), ws_delim, in_parenth));
    }
}

proof fn lemma_marked_peek(c: Cursor, ws_delim: bool, in_parenth: bool, skip: int)
    ensures
        marked(c, ws_delim, in_parenth).peek_past(skip) == c.peek_past(skip),
    decreases c.tokens.len() - skip,
{
    if 0 <= skip < c.tokens.len() && c.tokens[skip].0.is_insignificant() {
        lemma_marked_peek(c, ws_delim, in_parenth, skip + 1);
    }
}

/// The marks of a cursor change nothing about its significant tokens.
pub proof fn lemma_marked(c: Cursor, ws_delim: bool, in_parenth: bool, k: nat)
    ensures
        marked(c, ws_delim, in_parenth).behind(k) == marked(c.behind(k), ws_delim, in_parenth),
        marked(c, ws_delim, in_parenth).significant(k) == c.significant(k),
    decreases k,
{
    if k > 0 {
        lemma_marked(c, ws_delim, in_parenth, (k - 1) as nat);
        lemma_marked_skip(c.behind((k - 1) as nat), ws_delim, in_parenth);
    }
    lemma_marked_peek(c.behind(k), ws_delim, in_parenth, 0);
}

/// Two numeric literals joined by an operator, with no operator behind
/// them, are the operation on the two.
pub proof fn law_operation(c: Cursor, a: NumberView, op: MathOp, b: NumberView)
    requires
        c.significant(0) == Some(TokenView::Number(a)),
        operator(c.significant(1)) == Some(op),
        c.significant(2) == Some(TokenView::Number(b)),
        !is_operator(c.significant(3)),
    ensures
        parse_math_expr(c) == (
            Ok::<MathExprView, ParserErrView>(binary(literal(a), op, literal(b))),
            c.behind(3),
        ),
{
    lemma_behind_next(c, 0);
    lemma_behind_next(c, 1);
    lemma_behind_next(c, 2);
    let c1 = c.behind(1);
    let c2 = c.behind(2);
    let c3 = c.behind(3);
    law_literal_is_a_factor(c, a);
    law_literal_is_a_factor(c2, b);
    lemma_parse_math_expr(c);
    lemma_parse_multiplicative_expr(c);
    lemma_parse_multiplicative_expr(c2);
    lemma_multiplications(c1, literal(a));
    lemma_multiplications(c3, literal(b));
    lemma_multiplications(c3, binary(literal(a), op, literal(b)));
    lemma_additions(c1, literal(a));
    lemma_additions(c3, binary(literal(a), op, literal(b)));
}

/// Parentheses override the levels of the operators: a literal joined to a
/// parenthesized operation is joined to the whole of it, whichever the two
/// operators are.
pub proof fn law_parentheses_group(
    c: Cursor,
    a: NumberView,
    op1: MathOp,
    b: NumberView,
    op2: MathOp,
    d: NumberView,
)
    requires
        c.significant(0) == Some(TokenView::Number(a)),
        operator(c.significant(1)) == Some(op1),
        c.significant(2) == Some(TokenView::ParenthOpen),
        c.significant(3) == Some(TokenView::Number(b)),
        operator(c.significant(4)) == Some(op2),
        c.significant(5) == Some(TokenView::Number(d)),
        c.significant(6) == Some(TokenView::ParenthClose),
        !is_operator(c.significant(7)),
    ensures
        parse_math_expr(c) == (
            Ok::<MathExprView, ParserErrView>(
                binary(literal(a), op1, binary(literal(b), op2, literal(d))),
            ),
            marked(c.behind(7), c.ws_delim, false),
        ),
{
    lemma_behind_next(c, 0);
    lemma_behind_next(c, 1);
    lemma_behind_next(c, 2);
    lemma_behind_next(c, 3);
    lemma_behind_next(c, 4);
    lemma_behind_next(c, 5);
    lemma_behind_next(c, 6);
    let c1 = c.behind(1);
    let c2 = c.behind(2);
    let c3 = c.behind(3);
    let c6 = c.behind(6);
    let c7 = c.behind(7);
    lemma_flags_kept(c, 7);
    lemma_flags_kept(c, 3);
    lemma_flags_kept(c, 6);
    let inner = binary(literal(b), op2, literal(d));
    // Inside the parentheses.
    let inside = marked(c3, c.ws_delim, true);
    lemma_marked(c3, c.ws_delim, true, 0);
    lemma_marked(c3, c.ws_delim, true, 1);
    lemma_marked(c3, c.ws_delim, true, 2);
    lemma_marked(c3, c.ws_delim, true, 3);
    lemma_behind_sum(c, 3, 0);
    lemma_behind_sum(c, 3, 1);
    lemma_behind_sum(c, 3, 2);
    lemma_behind_sum(c, 3, 3);
    assert(!is_operator(Some(TokenView::ParenthClose)));
    law_operation(inside, b, op2, d);
    let closing = marked(c6, c.ws_delim, false);
    lemma_marked_skip(c6, c.ws_delim, false);
    lemma_marked_peek(c6, c.ws_delim, false, 0);
    lemma_skip_empty(closing);
    lemma_skip_empty(c6);
    assert(parse_parenth_expr(c2) == (
        Ok::<MathExprView, ParserErrView>(inner),
        marked(c7, c.ws_delim, false),
    ));
    let end = marked(c7, c.ws_delim, false);
    lemma_marked(c7, c.ws_delim, false, 0);
    // Outside.
    law_literal_is_a_factor(c, a);
    lemma_parse_math_expr(c);
    lemma_parse_multiplicative_expr(c);
    lemma_parse_multiplicative_expr(c2);
    lemma_multiplications(c1, literal(a));
    lemma_multiplications(end, inner);
    lemma_multiplications(end, binary(literal(a), op1, inner));
    lemma_additions(c1, literal(a));
    lemma_additions(end, binary(literal(a), op1, inner));
}

/// Taking tokens leaves the marks of a cursor alone.
pub proof fn lemma_flags_kept(c: Cursor, k: nat)
    ensures
        c.behind(k).ws_delim == c.ws_delim,
        c.behind(k).in_parenth == c.in_parenth,
    decreases k,
{
    if k > 0 {
        lemma_flags_kept(c, (k - 1) as nat);
        lemma_past_significant(c.behind((k - 1) as nat));
    }
}

/// Behind `j` significant tokens behind `k` is behind `k + j`.
pub proof fn lemma_behind_sum(c: Cursor, k: nat, j: nat)
    ensures
        c.behind(k).behind(j) == c.behind(k + j),
        c.behind(k).significant(j) == c.significant(k + j),
    decreases j,
{
    if j > 0 {
        lemma_behind_sum(c, k, (j - 1) as nat);
    }
}

/// A negated literal is a factor.
pub proof fn law_negated_literal(c: Cursor, n: NumberView)
    requires
        c.significant(0) == Some(TokenView::Subtraction),
        c.significant(1) == Some(TokenView::Number(n)),
    ensures
        parse_parenth_expr(c) == (
            Ok::<MathExprView, ParserErrView>(negate(literal(n))),
            c.behind(2),
        ),
{
    lemma_behind_next(c, 0);
    lemma_behind_next(c, 1);
    law_minus_negates_a_factor(c);
    lemma_behind_sum(c, 1, 0);
    law_literal_is_a_factor(c.behind(1), n);
    lemma_behind_sum(c, 1, 1);
}

/// Negation binds tighter than any operator: `a op -b` operates on `a` and
/// the negated `b`.
pub proof fn law_negated_right_operand(c: Cursor, a: NumberView, op: MathOp, b: NumberView)
    requires
        c.significant(0) == Some(TokenView::Number(a)),
        operator(c.significant(1)) == Some(op),
        c.significant(2) == Some(TokenView::Subtraction),
        c.significant(3) == Some(TokenView::Number(b)),
        !is_operator(c.significant(4)),
    ensures
        parse_math_expr(c) == (
            Ok::<MathExprView, ParserErrView>(binary(literal(a), op, negate(literal(b)))),
            c.behind(4),
        ),
{
    lemma_behind_next(c, 0);
    lemma_behind_next(c, 1);
    let c1 = c.behind(1);
    let c2 = c.behind(2);
    let c4 = c.behind(4);
    lemma_behind_sum(c, 2, 0);
    lemma_behind_sum(c, 2, 1);
    lemma_behind_sum(c, 2, 2);
    law_literal_is_a_factor(c, a);
    law_negated_literal(c2, b);
    let right = negate(literal(b));
    lemma_parse_math_expr(c);
    lemma_parse_multiplicative_expr(c);
    lemma_parse_multiplicative_expr(c2);
    lemma_multiplications(c1, literal(a));
    lemma_multiplications(c4, right);
    lemma_multiplications(c4, binary(literal(a), op, right));
    lemma_additions(c1, literal(a));
    lemma_additions(c4, binary(literal(a), op, right));
}

/// Negation binds tighter than any operator: `-a op b` operates on the
/// negated `a` and `b`.
pub proof fn law_negated_left_operand(c: Cursor, a: NumberView, op: MathOp, b: NumberView)
    requires
        c.significant(0) == Some(TokenView::Subtraction),
        c.significant(1) == Some(TokenView::Number(a)),
        operator(c.significant(2)) == Some(op),
        c.significant(3) == Some(TokenView::Number(b)),
        !is_operator(c.significant(4)),
    ensures
        parse_math_expr(c) == (
            Ok::<MathExprView, ParserErrView>(binary(negate(literal(a)), op, literal(b))),
            c.behind(4),
        ),
{
    lemma_behind_next(c, 2);
    lemma_behind_next(c, 3);
    let c2 = c.behind(2);
    let c3 = c.behind(3);
    let c4 = c.behind(4);
    lemma_behind_sum(c, 3, 0);
    law_negated_literal(c, a);
    law_literal_is_a_factor(c3, b);
    lemma_behind_sum(c, 3, 1);
    let left = negate(literal(a));
    lemma_parse_math_expr(c);
    lemma_parse_multiplicative_expr(c);
    lemma_parse_multiplicative_expr(c3);
    lemma_multiplications(c2, left);
    lemma_multiplications(c4, literal(b));
    lemma_multiplications(c4, binary(left, op, literal(b)));
    lemma_additions(c2, left);
    lemma_additions(c4, binary(left, op, literal(b)));
}

/// A minus sign before parentheses negates the whole expression in them.
pub proof fn law_negated_parentheses(c: Cursor, a: NumberView, op: MathOp, b: NumberView)
    requires
        c.significant(0) == Some(TokenView::Subtraction),
        c.significant(1) == Some(TokenView::ParenthOpen),
        c.significant(2) == Some(TokenView::Number(a)),
        operator(c.significant(3)) == Some(op),
        c.significant(4) == Some(TokenView::Number(b)),
        c.significant(5) == Some(TokenView::ParenthClose),
        !is_operator(c.significant(6)),
    ensures
        parse_math_expr(c) == (
            Ok::<MathExprView, ParserErrView>(negate(binary(literal(a), op, literal(b)))),
            marked(c.behind(6), c.ws_delim, false),
        ),
{
    lemma_behind_next(c, 0);
    lemma_behind_next(c, 1);
    lemma_behind_next(c, 4);
    lemma_behind_next(c, 5);
    let c1 = c.behind(1);
    let c2 = c.behind(2);
    let c5 = c.behind(5);
    let c6 = c.behind(6);
    lemma_flags_kept(c, 2);
    lemma_flags_kept(c, 5);
    lemma_flags_kept(c, 6);
    let inner = binary(literal(a), op, literal(b));
    let inside = marked(c2, c.ws_delim, true);
    lemma_marked(c2, c.ws_delim, true, 0);
    lemma_marked(c2, c.ws_delim, true, 1);
    lemma_marked(c2, c.ws_delim, true, 2);
    lemma_marked(c2, c.ws_delim, true, 3);
    lemma_behind_sum(c, 2, 0);
    lemma_behind_sum(c, 2, 1);
    lemma_behind_sum(c, 2, 2);
    lemma_behind_sum(c, 2, 3);
    assert(!is_operator(Some(TokenView::ParenthClose)));
    law_operation(inside, a, op, b);
    let closing = marked(c5, c.ws_delim, false);
    lemma_marked_skip(c5, c.ws_delim, false);
    lemma_marked_peek(c5, c.ws_delim, false, 0);
    lemma_skip_empty(closing);
    lemma_skip_empty(c5);
    lemma_behind_sum(c, 1, 0);
    lemma_behind_sum(c, 1, 1);
    assert(parse_parenth_expr(c1) == (
        Ok::<MathExprView, ParserErrView>(inner),
        marked(c6, c.ws_delim, false),
    ));
    law_minus_negates_a_factor(c);
    let end = marked(c6, c.ws_delim, false);
    lemma_marked(c6, c.ws_delim, false, 0);
    lemma_parse_math_expr(c);
    lemma_parse_multiplicative_expr(c);
    lemma_multiplications(end, negate(inner));
    lemma_additions(end, negate(inner));
}

/// Whether the token goes on with an identifier: a type annotation, an
/// accessor or a comma.
pub open spec fn continues_identifier(token: Option<TokenView>) -> bool {
    token == Some(TokenView::TypeAnnotator) || token == Some(TokenView::Period) || token == Some(
        TokenView::Comma,
    )
}

/// A name with nothing of an identifier behind it is a simple identifier
/// without a declared type.
pub proof fn law_simple_identifier(c: Cursor, name: Seq<char>)
    requires
        c.significant(0) == Some(TokenView::Ident(name)),
        !continues_identifier(c.significant(1)),
    ensures
        parse_ident(c) == (Ok::<IdentifierView, ParserErrView>(plain(name)), c.behind(1)),
{
    lemma_behind_next(c, 0);
    lemma_skip_empty(c);
}

/// A name, a period and a name are an accessor.
pub proof fn law_accessor(c: Cursor, object: Seq<char>, field: Seq<char>)
    requires
        c.significant(0) == Some(TokenView::Ident(object)),
        c.significant(1) == Some(TokenView::Period),
        c.significant(2) == Some(TokenView::Ident(field)),
        c.significant(3) != Some(TokenView::Period),
        c.significant(3) != Some(TokenView::Comma),
    ensures
        parse_ident(c) == (
            Ok::<IdentifierView, ParserErrView>(
                IdentifierView::Accessor(Box::new(plain(object)), Box::new(plain(field))),
            ),
            c.behind(3),
        ),
{
    lemma_behind_next(c, 0);
    lemma_behind_next(c, 1);
    lemma_behind_next(c, 2);
    lemma_skip_empty(c);
    lemma_skip_empty(c.behind(2));
    let object_ident = plain(object);
    let both = IdentifierView::Accessor(Box::new(object_ident), Box::new(plain(field)));
    assert(accessors(c.behind(3), both) == (Ok::<IdentifierView, ParserErrView>(both), c.behind(3)));
    assert(accessors(c.behind(1), object_ident) == accessors(c.behind(3), both));
    assert(parse_simple_ident(c) == accessors(c.behind(1), object_ident));
}

/// Two names joined by a comma are a compound of the two.
pub proof fn law_compound(c: Cursor, first: Seq<char>, second: Seq<char>)
    requires
        c.significant(0) == Some(TokenView::Ident(first)),
        c.significant(1) == Some(TokenView::Comma),
        c.significant(2) == Some(TokenView::Ident(second)),
        !continues_identifier(c.significant(3)),
    ensures
        parse_ident(c) == (
            Ok::<IdentifierView, ParserErrView>(
                IdentifierView::Compound(seq![plain(first), plain(second)]),
            ),
            c.behind(3),
        ),
{
    lemma_behind_next(c, 0);
    lemma_behind_next(c, 1);
    lemma_behind_next(c, 2);
    lemma_skip_empty(c);
    lemma_skip_empty(c.behind(2));
    let c1 = c.behind(1);
    let c2 = c.behind(2);
    let c3 = c.behind(3);
    assert(parse_simple_ident(c) == (Ok::<IdentifierView, ParserErrView>(plain(first)), c1));
    assert(accessors(c3, plain(second)) == (Ok::<IdentifierView, ParserErrView>(plain(second)), c3));
    assert(parse_simple_ident(c2) == (Ok::<IdentifierView, ParserErrView>(plain(second)), c3));
    let both = plain(first).compound(plain(second));
    assert(more_idents(c3, both) == (Ok::<IdentifierView, ParserErrView>(both), c3));
    assert(more_idents(c1, plain(first)) == more_idents(c3, both));
}

/// An accessor binds tighter than a comma: an accessor and a name joined by
/// a comma are a compound of the accessor and the name.
pub proof fn law_accessor_binds_tighter_than_comma(
    c: Cursor,
    object: Seq<char>,
    field: Seq<char>,
    second: Seq<char>,
)
    requires
        c.significant(0) == Some(TokenView::Ident(object)),
        c.significant(1) == Some(TokenView::Period),
        c.significant(2) == Some(TokenView::Ident(field)),
        c.significant(3) == Some(TokenView::Comma),
        c.significant(4) == Some(TokenView::Ident(second)),
        !continues_identifier(c.significant(5)),
    ensures
        parse_ident(c) == (
            Ok::<IdentifierView, ParserErrView>(
                IdentifierView::Compound(
                    seq![
                        IdentifierView::Accessor(Box::new(plain(object)), Box::new(plain(field))),
                        plain(second),
                    ],
                ),
            ),
            c.behind(5),
        ),
{
    lemma_behind_next(c, 0);
    lemma_behind_next(c, 1);
    lemma_behind_next(c, 2);
    lemma_behind_next(c, 3);
    lemma_behind_next(c, 4);
    lemma_skip_empty(c);
    lemma_skip_empty(c.behind(2));
    lemma_skip_empty(c.behind(4));
    let c1 = c.behind(1);
    let c3 = c.behind(3);
    let c4 = c.behind(4);
    let c5 = c.behind(5);
    let object_ident = plain(object);
    let accessor = IdentifierView::Accessor(Box::new(object_ident), Box::new(plain(field)));
    assert(accessors(c3, accessor) == (Ok::<IdentifierView, ParserErrView>(accessor), c3));
    assert(accessors(c1, object_ident) == accessors(c3, accessor));
    assert(parse_simple_ident(c) == (Ok::<IdentifierView, ParserErrView>(accessor), c3));
    assert(accessors(c5, plain(second)) == (Ok::<IdentifierView, ParserErrView>(plain(second)), c5));
    assert(parse_simple_ident(c4) == (Ok::<IdentifierView, ParserErrView>(plain(second)), c5));
    let both = accessor.compound(plain(second));
    assert(more_idents(c5, both) == (Ok::<IdentifierView, ParserErrView>(both), c5));
    assert(more_idents(c3, accessor) == more_idents(c5, both));
}

/// A string literal with no comma behind it is an expression.
pub proof fn law_string_literal(c: Cursor, text: Seq<char>)
    requires
        c.significant(0) == Some(TokenView::StringLiteral(text)),
        c.significant(1) != Some(TokenView::Comma),
    ensures
        parse_expr(c) == (
            Ok::<ExpressionView, ParserErrView>(ExpressionView::StrLiteral(text)),
            c.behind(1),
        ),
{
    lemma_behind_next(c, 0);
    lemma_skip_empty(c);
    lemma_parse_expr(c);
    lemma_more_exprs(c.behind(1), ExpressionView::StrLiteral(text));
}

/// A name, `=` and an expression are an assignment to the name.
pub proof fn law_assignment(c: Cursor, name: Seq<char>)
    requires
        c.significant(0) == Some(TokenView::Ident(name)),
        c.significant(1) == Some(TokenView::Assignment),
    ensures
        parse_node(c) == match parse_expr(c.behind(2)) {
            (Err(e), end) => (Err(e), end),
            (Ok(value), end) => (Ok(Some(AstNodeView::Assignment(plain(name), value))), end),
        },
{
    lemma_behind_next(c, 0);
    lemma_behind_next(c, 1);
    lemma_past_significant(c);
    law_simple_identifier(c, name);
}

/// A name, a type annotation, `=` and an expression are an assignment to
/// the name as it is declared.
pub proof fn law_typed_assignment(c: Cursor, name: Seq<char>, declared: Seq<char>)
    requires
        c.significant(0) == Some(TokenView::Ident(name)),
        c.significant(1) == Some(TokenView::TypeAnnotator),
        c.significant(2) == Some(TokenView::Ident(declared)),
        c.significant(3) == Some(TokenView::Assignment),
    ensures
        parse_node(c) == match parse_expr(c.behind(4)) {
            (Err(e), end) => (Err(e), end),
            (Ok(value), end) => (
                Ok(
                    Some(
                        AstNodeView::Assignment(
                            IdentifierView::Identifier(name, TypeView::Defined(declared)),
                            value,
                        ),
                    ),
                ),
                end,
            ),
        },
{
    lemma_behind_next(c, 0);
    lemma_behind_next(c, 1);
    lemma_behind_next(c, 2);
    lemma_behind_next(c, 3);
    lemma_past_significant(c);
    lemma_skip_empty(c);
    lemma_skip_empty(c.behind(2));
    let target = IdentifierView::Identifier(name, TypeView::Defined(declared));
    assert(parse_type(c.behind(2)) == (
        Ok::<TypeView, ParserErrView>(TypeView::Defined(declared)),
        c.behind(3),
    ));
    assert(parse_simple_ident(c) == (Ok::<IdentifierView, ParserErrView>(target), c.behind(3)));
    assert(more_idents(c.behind(3), target) == (
        Ok::<IdentifierView, ParserErrView>(target),
        c.behind(3),
    ));
}

/// A name that neither goes on as an identifier nor is assigned to is the
/// head of a call, whose arguments are whitespace-delimited.
pub proof fn law_call(c: Cursor, name: Seq<char>)
    requires
        c.significant(0) == Some(TokenView::Ident(name)),
        !continues_identifier(c.significant(1)),
        c.significant(1) != Some(TokenView::Assignment),
    ensures
        parse_node(c) == (
            Ok::<Option<AstNodeView>, ParserErrView>(
                Some(
                    AstNodeView::ImpFuncCall(plain(name), crate::grammar::ws_delimited(c.behind(1)).0),
                ),
            ),
            crate::grammar::ws_delimited(c.behind(1)).1,
        ),
{
    lemma_behind_next(c, 0);
    lemma_past_significant(c);
    law_simple_identifier(c, name);
}

/// A type annotation directly behind an accessor ends the statement, which
/// is a call of the accessor without arguments, and leaves one diagnostic:
/// the annotation is unexpected where the next statement would begin.
pub proof fn law_annotated_accessor(c: Cursor, object: Seq<char>, field: Seq<char>)
    requires
        c.significant(0) == Some(TokenView::Ident(object)),
        c.significant(1) == Some(TokenView::Period),
        c.significant(2) == Some(TokenView::Ident(field)),
        c.behind(3).peek() == Some(TokenView::TypeAnnotator),
    ensures
        parse_node(c) == (
            Ok::<Option<AstNodeView>, ParserErrView>(
                Some(
                    AstNodeView::ImpFuncCall(
                        IdentifierView::Accessor(Box::new(plain(object)), Box::new(plain(field))),
                        seq![],
                    ),
                ),
            ),
            c.behind(3),
        ),
        parse_node(c.behind(3)) == (
            Err::<Option<AstNodeView>, ParserErrView>(
                ParserErrView::UnexpectedToken {
                    line: c.behind(3).line + 1,
                    column: c.behind(3).tokens[0].1,
                    token: TokenView::TypeAnnotator,
                },
            ),
            c.behind(3).step(),
        ),
{
    lemma_behind_next(c, 0);
    lemma_behind_next(c, 1);
    lemma_behind_next(c, 2);
    lemma_past_significant(c);
    let c3 = c.behind(3);
    assert(c3.peek_past(0) == Some(TokenView::TypeAnnotator));
    law_accessor(c, object, field);
    assert(c3.skip_empty() == c3);
    assert(expect_ident(c3).0 is Err);
}

/// A numeric literal as an expression.
pub open spec fn literal_expr(n: NumberView) -> ExpressionView {
    ExpressionView::MathExpr(literal(n))
}

/// A numeric literal with no operator behind it is what an expression
/// begins with.
pub proof fn law_literal_begins_an_expression(c: Cursor, n: NumberView)
    requires
        c.significant(0) == Some(TokenView::Number(n)),
        !is_operator(c.significant(1)),
    ensures
        primary_expr(c) == (Ok::<ExpressionView, ParserErrView>(literal_expr(n)), c.behind(1)),
{
    lemma_behind_next(c, 0);
    law_literal_is_a_factor(c, n);
    law_factor_alone(c, literal(n), c.behind(1));
    lemma_behind_sum(c, 1, 0);
}

/// Commas join their expressions into one compound: three literals joined
/// by two commas are a compound of three members, none of them a compound
/// itself.
pub proof fn law_commas_join_one_compound(c: Cursor, a: NumberView, b: NumberView, d: NumberView)
    requires
        c.significant(0) == Some(TokenView::Number(a)),
        c.significant(1) == Some(TokenView::Comma),
        c.significant(2) == Some(TokenView::Number(b)),
        c.significant(3) == Some(TokenView::Comma),
        c.significant(4) == Some(TokenView::Number(d)),
        !is_operator(c.significant(5)),
        c.significant(5) != Some(TokenView::Comma),
    ensures
        parse_expr(c) == (
            Ok::<ExpressionView, ParserErrView>(
                ExpressionView::Compound(seq![literal_expr(a), literal_expr(b), literal_expr(d)]),
            ),
            c.behind(5),
        ),
{
    lemma_behind_next(c, 0);
    lemma_behind_next(c, 1);
    lemma_behind_next(c, 2);
    lemma_behind_next(c, 3);
    lemma_behind_next(c, 4);
    let c1 = c.behind(1);
    let c2 = c.behind(2);
    let c3 = c.behind(3);
    let c4 = c.behind(4);
    let c5 = c.behind(5);
    lemma_behind_sum(c, 2, 0);
    lemma_behind_sum(c, 2, 1);
    lemma_behind_sum(c, 4, 0);
    lemma_behind_sum(c, 4, 1);
    law_literal_begins_an_expression(c, a);
    law_literal_begins_an_expression(c2, b);
    law_literal_begins_an_expression(c4, d);
    lemma_behind_sum(c, 2, 1);
    let two = literal_expr(a).compound(literal_expr(b));
    let three = two.compound(literal_expr(d));
    assert(three == ExpressionView::Compound(
        seq![literal_expr(a), literal_expr(b), literal_expr(d)],
    )) by {
        assert(seq![literal_expr(a), literal_expr(b)].push(literal_expr(d)) =~= seq![
            literal_expr(a),
            literal_expr(b),
            literal_expr(d),
        ]);
    }
    lemma_parse_expr(c);
    lemma_more_exprs(c1, literal_expr(a));
    lemma_more_exprs(c3, two);
    lemma_more_exprs(c5, three);
}

} // verus!
