//! How a parse ends: the diagnostic of exhausted tokens is the last word of
//! a parse, because no token is left behind it.

use vstd::prelude::*;
use crate::error::ParserErrView;
use crate::grammar::{
    accessors, additions, additive_op, expect_ident, expect_token, func_literal,
    function_body, lemma_additions, lemma_func_literal, lemma_more_exprs,
    lemma_multiplications, lemma_parameters, lemma_parse_all, lemma_parse_expr,
    lemma_parse_ident, lemma_parse_math_expr, lemma_parse_multiplicative_expr,
    lemma_parse_node, lemma_parse_parenth_expr, lemma_parse_simple_ident, lemma_parse_type,
    lemma_past_significant, lemma_skip_empty, lemma_statements, literal_body, more_exprs,
    more_idents, multiplications, multiplicative_op, parameters, parse_all, parse_expr,
    parse_ident, parse_math_expr, parse_multiplicative_expr, parse_node, parse_parenth_expr,
    parse_simple_ident, parse_type, parse_unary_expr, primary_expr, statements, type_list,
    Cursor, Parsed,
};
use crate::nodes::{AstNodeView, ExpressionView, IdentifierView, MathExprView};
use crate::tokens::TokenView;
use crate::types::TypeView;

verus! {

/// Whether a rule that reports exhausted tokens has left none.
pub open spec fn eof_is_final<T>(r: Parsed<T>) -> bool {
    r.0 == Err::<T, ParserErrView>(ParserErrView::UnexpectedEOF) ==> r.1.tokens.len() == 0
}

proof fn lemma_take_eof(c: Cursor)
    ensures
        c.skip_empty().next().0 is None ==> c.past_significant().tokens.len() == 0,
        eof_is_final(expect_ident(c)),
        forall|want: TokenView| eof_is_final(#[trigger] expect_token(c, want)),
{
}

proof fn lemma_type_list_eof(c: Cursor, types: Seq<TypeView>)
    ensures
        eof_is_final(type_list(c, types)),
    decreases c.tokens.len(),
{
    lemma_take_eof(c);
    if c.peek_past(0) == Some(TokenView::Comma) {
        lemma_past_significant(c);
        lemma_past_significant(c.past_significant());
        lemma_take_eof(c.past_significant());
        match expect_ident(c.past_significant()) {
            (Err(e), behind) => {},
            (Ok(name), behind) => {
                lemma_type_list_eof(behind, types.push(TypeView::Defined(name)));
            },
        }
    }
}

proof fn lemma_parse_type_eof(c: Cursor)
    ensures
        eof_is_final(parse_type(c)),
{
    lemma_take_eof(c);
    if c.peek_past(0) == Some(TokenView::ParenthOpen) {
        lemma_take_eof(c.past_significant());
        match expect_ident(c.past_significant()) {
            (Err(e), behind) => {},
            (Ok(first), behind) => {
                lemma_type_list_eof(behind, seq![TypeView::Defined(first)]);
            },
        }
    }
}

proof fn lemma_accessors_eof(c: Cursor, object: IdentifierView)
    ensures
        eof_is_final(accessors(c, object)),
    decreases c.tokens.len(),
{
    if c.peek_past(0) == Some(TokenView::Period) {
        lemma_past_significant(c);
        lemma_past_significant(c.past_significant());
        lemma_take_eof(c.past_significant());
        match expect_ident(c.past_significant()) {
            (Err(e), behind) => {},
            (Ok(name), behind) => {
                lemma_accessors_eof(
                    behind,
                    IdentifierView::Accessor(
                        Box::new(object),
                        Box::new(IdentifierView::Identifier(name, TypeView::Undefined)),
                    ),
                );
            },
        }
    }
}

proof fn lemma_parse_simple_ident_eof(c: Cursor)
    ensures
        eof_is_final(parse_simple_ident(c)),
{
    lemma_take_eof(c);
    match expect_ident(c) {
        (Err(e), behind) => {},
        (Ok(name), behind) => {
            if behind.peek_past(0) == Some(TokenView::TypeAnnotator) {
                lemma_parse_type_eof(behind.past_significant());
            } else {
                lemma_accessors_eof(behind, IdentifierView::Identifier(name, TypeView::Undefined));
            }
        },
    }
}

proof fn lemma_more_idents_eof(c: Cursor, ident: IdentifierView)
    ensures
        eof_is_final(more_idents(c, ident)),
    decreases c.tokens.len(),
{
    if c.peek_past(0) == Some(TokenView::Comma) {
        lemma_past_significant(c);
        lemma_parse_simple_ident(c.past_significant());
        lemma_parse_simple_ident_eof(c.past_significant());
        match parse_simple_ident(c.past_significant()) {
            (Err(e), behind) => {},
            (Ok(rhs), behind) => {
                lemma_more_idents_eof(behind, ident.compound(rhs));
            },
        }
    }
}

proof fn lemma_parse_ident_eof(c: Cursor)
    ensures
        eof_is_final(parse_ident(c)),
{
    lemma_parse_simple_ident_eof(c);
    match parse_simple_ident(c) {
        (Err(e), behind) => {},
        (Ok(first), behind) => {
            lemma_more_idents_eof(behind, first);
        },
    }
}

proof fn lemma_parameters_eof(c: Cursor, params: Seq<(Seq<char>, TypeView)>)
    ensures
        eof_is_final(parameters(c, params)),
    decreases c.tokens.len(),
{
    lemma_past_significant(c);
    lemma_take_eof(c);
    match expect_ident(c) {
        (Err(e), behind) => {},
        (Ok(name), behind) => {
            lemma_past_significant(behind);
            lemma_parse_type(behind.past_significant());
            lemma_parse_type_eof(behind.past_significant());
            let annotation = if behind.peek_past(0) == Some(TokenView::TypeAnnotator) {
                parse_type(behind.past_significant())
            } else {
                (Ok(TypeView::Undefined), behind)
            };
            match annotation {
                (Err(e), end) => {},
                (Ok(declared), end) => {
                    let spaced = if end.peek() == Some(TokenView::Whitespace) {
                        end.step()
                    } else {
                        end
                    };
                    if spaced.peek_past(0) != Some(TokenView::Pipe) {
                        lemma_parameters_eof(spaced, params.push((name, declared)));
                    }
                },
            }
        },
    }
}

/// A statement that reports exhausted tokens has left none.
pub proof fn lemma_parse_node_eof(c: Cursor)
    ensures
        eof_is_final(parse_node(c)),
    decreases c.tokens.len(), 12nat,
{
    lemma_past_significant(c);
    lemma_parse_ident(c);
    if c.tokens.len() == 0 {
    } else if c.peek_past(0) == Some(TokenView::Return) {
        lemma_parse_expr_eof(c.past_significant());
    } else {
        lemma_parse_ident_eof(c);
        match parse_ident(c) {
            (Err(e), behind) => {},
            (Ok(target), behind) => {
                lemma_past_significant(behind);
                if behind.peek_past(0) == Some(TokenView::Assignment) {
                    lemma_parse_expr_eof(behind.past_significant());
                }
            },
        }
    }
}

proof fn lemma_parse_expr_eof(c: Cursor)
    ensures
        eof_is_final(parse_expr(c)),
    decreases c.tokens.len(), 9nat,
{
    lemma_parse_expr(c);
    lemma_primary_expr_eof(c);
    match primary_expr(c) {
        (Err(e), behind) => {},
        (Ok(first), behind) => {
            crate::grammar::lemma_primary_expr(c);
            lemma_more_exprs_eof(behind, first);
        },
    }
}

proof fn lemma_primary_expr_eof(c: Cursor)
    ensures
        eof_is_final(primary_expr(c)),
    decreases c.tokens.len(), 8nat,
{
    lemma_take_eof(c);
    lemma_skip_empty(c);
    if c.peek_past(0) matches Some(TokenView::StringLiteral(_)) {
    } else if c.peek_past(0) == Some(TokenView::Pipe) {
        lemma_func_literal_eof(c);
    } else if c.peek_past(0) == Some(TokenView::FuncOpen) {
        lemma_function_body_eof(c);
    } else {
        lemma_parse_math_expr_eof(c);
    }
}

proof fn lemma_func_literal_eof(c: Cursor)
    requires
        c.peek_past(0) == Some(TokenView::Pipe),
    ensures
        eof_is_final(func_literal(c)),
    decreases c.tokens.len(), 7nat,
{
    lemma_func_literal(c);
    lemma_past_significant(c);
    lemma_parameters(c.past_significant(), seq![]);
    lemma_parameters_eof(c.past_significant(), seq![]);
    match parameters(c.past_significant(), seq![]) {
        (Err(e), behind) => {},
        (Ok(params), behind) => {
            lemma_literal_body_eof(behind);
        },
    }
}

proof fn lemma_literal_body_eof(c: Cursor)
    ensures
        eof_is_final(literal_body(c)),
    decreases c.tokens.len(), 10nat,
{
    if c.peek_past(0) == Some(TokenView::FuncOpen) {
        lemma_function_body_eof(c);
    } else {
        lemma_parse_expr_eof(c);
    }
}

proof fn lemma_more_exprs_eof(c: Cursor, expr: ExpressionView)
    ensures
        eof_is_final(more_exprs(c, expr)),
    decreases c.tokens.len(), 1nat,
{
    lemma_more_exprs(c, expr);
    if c.peek_past(0) == Some(TokenView::Comma) {
        lemma_past_significant(c);
        crate::grammar::lemma_primary_expr(c.past_significant());
        lemma_primary_expr_eof(c.past_significant());
        match primary_expr(c.past_significant()) {
            (Err(e), behind) => {},
            (Ok(rhs), behind) => {
                lemma_more_exprs_eof(behind, expr.compound(rhs));
            },
        }
    }
}

proof fn lemma_function_body_eof(c: Cursor)
    ensures
        eof_is_final(function_body(c)),
    decreases c.tokens.len(), 7nat,
{
    lemma_past_significant(c);
    lemma_take_eof(c);
    match expect_token(c, TokenView::FuncOpen) {
        (Err(e), behind) => {},
        (Ok(_), behind) => {
            lemma_statements_eof(behind, seq![]);
        },
    }
}

proof fn lemma_statements_eof(c: Cursor, nodes: Seq<AstNodeView>)
    ensures
        eof_is_final(statements(c, nodes)),
    decreases c.tokens.len(), 13nat,
{
    lemma_statements(c, nodes);
    lemma_take_eof(c);
    if c.peek_past(0) != Some(TokenView::FuncClose) {
        lemma_parse_node(c);
        lemma_parse_node_eof(c);
        match parse_node(c) {
            (Err(e), behind) => {},
            (Ok(None), behind) => {
                lemma_take_eof(behind);
            },
            (Ok(Some(node)), behind) => {
                lemma_statements_eof(behind, nodes.push(node));
            },
        }
    }
}

proof fn lemma_parse_math_expr_eof(c: Cursor)
    ensures
        eof_is_final(parse_math_expr(c)),
    decreases c.tokens.len(), 6nat,
{
    lemma_parse_math_expr(c);
    lemma_parse_multiplicative_expr(c);
    lemma_parse_multiplicative_expr_eof(c);
    match parse_multiplicative_expr(c) {
        (Err(e), behind) => {},
        (Ok(left), behind) => {
            lemma_additions_eof(behind, left);
        },
    }
}

proof fn lemma_additions_eof(c: Cursor, left: MathExprView)
    ensures
        eof_is_final(additions(c, left)),
    decreases c.tokens.len(), 1nat,
{
    lemma_additions(c, left);
    match additive_op(c.peek_past(0)) {
        None => {},
        Some(op) => {
            lemma_past_significant(c);
            lemma_parse_multiplicative_expr(c.past_significant());
            lemma_parse_multiplicative_expr_eof(c.past_significant());
            match parse_multiplicative_expr(c.past_significant()) {
                (Err(e), behind) => {},
                (Ok(right), behind) => {
                    lemma_additions_eof(
                        behind,
                        MathExprView::BinaryOp(Box::new(left), Box::new(right), op),
                    );
                },
            }
        },
    }
}

proof fn lemma_parse_multiplicative_expr_eof(c: Cursor)
    ensures
        eof_is_final(parse_multiplicative_expr(c)),
    decreases c.tokens.len(), 5nat,
{
    lemma_parse_multiplicative_expr(c);
    lemma_parse_parenth_expr(c);
    lemma_parse_parenth_expr_eof(c);
    match parse_parenth_expr(c) {
        (Err(e), behind) => {},
        (Ok(left), behind) => {
            lemma_multiplications_eof(behind, left);
        },
    }
}

proof fn lemma_multiplications_eof(c: Cursor, left: MathExprView)
    ensures
        eof_is_final(multiplications(c, left)),
    decreases c.tokens.len(), 1nat,
{
    lemma_multiplications(c, left);
    match multiplicative_op(c.peek_past(0)) {
        None => {},
        Some(op) => {
            lemma_past_significant(c);
            lemma_parse_parenth_expr(c.past_significant());
            lemma_parse_parenth_expr_eof(c.past_significant());
            match parse_parenth_expr(c.past_significant()) {
                (Err(e), behind) => {},
                (Ok(right), behind) => {
                    lemma_multiplications_eof(
                        behind,
                        MathExprView::BinaryOp(Box::new(left), Box::new(right), op),
                    );
                },
            }
        },
    }
}

proof fn lemma_parse_parenth_expr_eof(c: Cursor)
    ensures
        eof_is_final(parse_parenth_expr(c)),
    decreases c.tokens.len(), 4nat,
{
    lemma_past_significant(c);
    if c.peek_past(0) == Some(TokenView::ParenthOpen) {
        let inside = Cursor { in_parenth: true, ..c.past_significant() };
        lemma_parse_math_expr_eof(inside);
        match parse_math_expr(inside) {
            (Err(e), behind) => {},
            (Ok(inner), behind) => {
                lemma_take_eof(Cursor { in_parenth: false, ..behind });
            },
        }
    } else {
        lemma_parse_unary_expr_eof(c);
    }
}

proof fn lemma_parse_unary_expr_eof(c: Cursor)
    ensures
        eof_is_final(parse_unary_expr(c)),
    decreases c.tokens.len(), 3nat,
{
    lemma_past_significant(c);
    lemma_take_eof(c);
    lemma_parse_ident(c);
    if c.peek_past(0) == Some(TokenView::Subtraction) {
        lemma_parse_parenth_expr_eof(c.past_significant());
    } else if c.peek_past(0) matches Some(TokenView::Number(_)) {
    } else if c.peek_past(0) matches Some(TokenView::Ident(_)) {
        lemma_parse_ident_eof(c);
    } else {
    }
}

/// Whether none of the diagnostics but the last reports exhausted tokens.
pub open spec fn eof_only_last(errs: Seq<ParserErrView>) -> bool {
    forall|i: int| 0 <= i < errs.len() - 1 ==> (#[trigger] errs[i]) != ParserErrView::UnexpectedEOF
}

/// Among the diagnostics of a parse only the last one can report exhausted
/// tokens: a parse has nothing to go on with behind that.
pub proof fn lemma_eof_is_last(c: Cursor, nodes: Seq<AstNodeView>, errs: Seq<ParserErrView>)
    requires
        forall|i: int| 0 <= i < errs.len() ==> (#[trigger] errs[i]) != ParserErrView::UnexpectedEOF,
    ensures
        eof_only_last(parse_all(c, nodes, errs).1),
    decreases c.tokens.len(),
{
    lemma_parse_all(c, nodes, errs);
    lemma_skip_empty(c);
    lemma_parse_node(c.skip_empty());
    lemma_parse_node_eof(c.skip_empty());
    match parse_node(c.skip_empty()) {
        (Ok(None), behind) => {},
        (Ok(Some(node)), behind) => {
            lemma_eof_is_last(behind, nodes.push(node), errs);
        },
        (Err(e), behind) => {
            let longer = errs.push(e);
            if e == ParserErrView::UnexpectedEOF {
                lemma_parse_all(behind, nodes, longer);
                assert(parse_node(behind.skip_empty()).0 == Ok::<
                    Option<AstNodeView>,
                    ParserErrView,
                >(None)) by {
                    lemma_skip_empty(behind);
                }
                assert forall|i: int| 0 <= i < longer.len() - 1 implies (#[trigger] longer[i])
                    != ParserErrView::UnexpectedEOF by {
                    assert(longer[i] == errs[i]);
                }
            } else {
                assert forall|i: int| 0 <= i < longer.len() implies (#[trigger] longer[i])
                    != ParserErrView::UnexpectedEOF by {
                    if i < errs.len() {
                        assert(longer[i] == errs[i]);
                    }
                }
                lemma_eof_is_last(behind, nodes, longer);
            }
        },
    }
}

} // verus!
