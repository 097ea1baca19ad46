//! What every syntax tree that the parser builds has in common: a compound
//! has at least two members, and no name is empty.

use vstd::prelude::*;
use crate::error::ParserErrView;
use crate::grammar::{
    accessors, additions, expect_ident, expect_token,
    func_literal, function_body, lemma_additions, lemma_func_literal, lemma_more_exprs,
    lemma_multiplications, lemma_parse_all, lemma_parse_expr, lemma_parse_math_expr,
    lemma_parse_multiplicative_expr, lemma_past_significant, lemma_statements, lemma_ws_args,
    literal_body, more_exprs, more_idents, multiplications, parameters, parse_all, parse_expr,
    parse_ident, parse_math_expr, parse_multiplicative_expr, parse_node, parse_parenth_expr,
    parse_simple_ident, parse_type, parse_unary_expr, primary_expr, statements, type_list,
    ws_args, ws_delimited, Cursor,
};
use crate::lexer::{lemma_lexed_names, names_are_identifiers};
use crate::nodes::{AstNodeView, ExpressionView, IdentifierView, MathExprView};
use crate::pipeline::{start_of, statements_of};
use crate::tokens::TokenView;
use crate::types::TypeView;

verus! {

impl TypeView {
    /// Whether every compound in the type has at least two members and
    /// every name in it at least one character.
    pub open spec fn well_formed(self) -> bool
        decreases self,
    {
        match self {
            TypeView::Undefined => true,
            TypeView::Primitive(_) => true,
            TypeView::Defined(name) => name.len() > 0,
            TypeView::Function(inner) => inner.well_formed(),
            TypeView::Compound(members) => members.len() >= 2 && forall|i: int|
                0 <= i < members.len() ==> (#[trigger] members[i]).well_formed(),
        }
    }
}

impl IdentifierView {
    /// Whether every compound in the identifier has at least two members
    /// and every name in it at least one character.
    pub open spec fn well_formed(self) -> bool
        decreases self,
    {
        match self {
            IdentifierView::Identifier(name, declared) => name.len() > 0 && declared.well_formed(),
            IdentifierView::Accessor(object, field) => object.well_formed() && field.well_formed(),
            IdentifierView::Compound(members) => members.len() >= 2 && forall|i: int|
                0 <= i < members.len() ==> (#[trigger] members[i]).well_formed(),
        }
    }
}

impl MathExprView {
    /// Whether every compound in the expression has at least two members
    /// and every name in it at least one character.
    pub open spec fn well_formed(self) -> bool
        decreases self,
    {
        match self {
            MathExprView::Literal(_) => true,
            MathExprView::Identifier(ident) => ident.well_formed(),
            MathExprView::BinaryOp(lhs, rhs, _) => lhs.well_formed() && rhs.well_formed(),
            MathExprView::Negate(inner) => inner.well_formed(),
            MathExprView::FuncCall(ident, args) => ident.well_formed() && forall|i: int|
                0 <= i < args.len() ==> (#[trigger] args[i]).well_formed(),
        }
    }
}

impl ExpressionView {
    /// Whether every compound in the expression has at least two members
    /// and every name in it at least one character.
    pub open spec fn well_formed(self) -> bool
        decreases self,
    {
        match self {
            ExpressionView::MathExpr(e) => e.well_formed(),
            ExpressionView::StrLiteral(_) => true,
            ExpressionView::Compound(members) => members.len() >= 2 && forall|i: int|
                0 <= i < members.len() ==> (#[trigger] members[i]).well_formed(),
            ExpressionView::FuncLiteral { params, statements, return_type } => {
                &&& return_type.well_formed()
                &&& forall|i: int|
                    0 <= i < params.len() ==> (#[trigger] params[i]).0.len() > 0
                        && params[i].1.well_formed()
                &&& forall|i: int|
                    0 <= i < statements.len() ==> (#[trigger] statements[i]).well_formed()
            },
        }
    }
}

impl AstNodeView {
    /// Whether every compound in the statement has at least two members and
    /// every name in it at least one character.
    pub open spec fn well_formed(self) -> bool
        decreases self,
    {
        match self {
            AstNodeView::Assignment(ident, expr) => ident.well_formed() && expr.well_formed(),
            AstNodeView::ImpFuncCall(ident, args) => ident.well_formed() && forall|i: int|
                0 <= i < args.len() ==> (#[trigger] args[i]).well_formed(),
            AstNodeView::Return(expr) => expr.well_formed(),
            AstNodeView::Expression(expr) => expr.well_formed(),
        }
    }
}

/// Whether every type of the list is well formed.
pub open spec fn types_well_formed(types: Seq<TypeView>) -> bool {
    forall|i: int| 0 <= i < types.len() ==> (#[trigger] types[i]).well_formed()
}

/// Whether every expression of the list is well formed.
pub open spec fn exprs_well_formed(exprs: Seq<ExpressionView>) -> bool {
    forall|i: int| 0 <= i < exprs.len() ==> (#[trigger] exprs[i]).well_formed()
}

/// Whether every statement of the list is well formed.
pub open spec fn nodes_well_formed(nodes: Seq<AstNodeView>) -> bool {
    forall|i: int| 0 <= i < nodes.len() ==> (#[trigger] nodes[i]).well_formed()
}

/// Whether every parameter of the list has a name and a well-formed type.
pub open spec fn params_well_formed(params: Seq<(Seq<char>, TypeView)>) -> bool {
    forall|i: int|
        0 <= i < params.len() ==> (#[trigger] params[i]).0.len() > 0 && params[i].1.well_formed()
}

/// Whether every identifier token that is left has a name written as one.
pub open spec fn tidy(c: Cursor) -> bool {
    names_are_identifiers(c.tokens)
}

/// Joining a well-formed identifier to a well-formed one gives a
/// well-formed compound.
pub proof fn lemma_compound_ident(ident: IdentifierView, other: IdentifierView)
    requires
        ident.well_formed(),
        other.well_formed(),
    ensures
        ident.compound(other).well_formed(),
        ident.compound(other) is Compound,
{
    match ident {
        IdentifierView::Compound(members) => {
            let joined = members.push(other);
            assert forall|i: int| 0 <= i < joined.len() implies (#[trigger] joined[i]).well_formed() by {
                if i < members.len() {
                    assert(joined[i] == members[i]);
                }
            }
        },
        _ => {
            let joined = seq![ident, other];
            assert(joined[0] == ident && joined[1] == other);
        },
    }
}

/// Joining a well-formed expression to a well-formed one gives a
/// well-formed compound.
pub proof fn lemma_compound_expr(expr: ExpressionView, other: ExpressionView)
    requires
        expr.well_formed(),
        other.well_formed(),
    ensures
        expr.compound(other).well_formed(),
        expr.compound(other) is Compound,
{
    match expr {
        ExpressionView::Compound(members) => {
            let joined = members.push(other);
            assert forall|i: int| 0 <= i < joined.len() implies (#[trigger] joined[i]).well_formed() by {
                if i < members.len() {
                    assert(joined[i] == members[i]);
                }
            }
        },
        _ => {
            let joined = seq![expr, other];
            assert(joined[0] == expr && joined[1] == other);
        },
    }
}

proof fn lemma_step_tidy(c: Cursor)
    requires
        tidy(c),
    ensures
        tidy(c.step()),
        c.tokens.len() > 0 ==> (c.tokens[0].0 matches TokenView::Ident(name) ==> name.len() > 0),
{
    if c.tokens.len() > 0 {
        let rest = c.step().tokens;
        assert forall|j: int| 0 <= j < rest.len() implies ((#[trigger] rest[j]).0 matches TokenView::Ident(
            name,
        ) ==> crate::lexer::is_identifier_text(name)) by {
            assert(rest[j] == c.tokens[j + 1]);
        }
    }
}

proof fn lemma_skip_empty_tidy(c: Cursor)
    requires
        tidy(c),
    ensures
        tidy(c.skip_empty()),
    decreases c.tokens.len(),
{
    if c.tokens.len() > 0 && c.tokens[0].0.is_insignificant() {
        lemma_step_tidy(c);
        lemma_skip_empty_tidy(c.step());
    }
}

/// Behind the first significant token the names are as they were, and that
/// token, where it is an identifier, has a name.
proof fn lemma_take_tidy(c: Cursor)
    requires
        tidy(c),
    ensures
        tidy(c.past_significant()),
        c.skip_empty().next().0 matches Some((TokenView::Ident(name), _)) ==> name.len() > 0,
{
    lemma_skip_empty_tidy(c);
    lemma_step_tidy(c.skip_empty());
}

proof fn lemma_expect_ident_shape(c: Cursor)
    requires
        tidy(c),
    ensures
        tidy(expect_ident(c).1),
        expect_ident(c).0 matches Ok(name) ==> name.len() > 0,
{
    lemma_take_tidy(c);
}

proof fn lemma_type_list_shape(c: Cursor, types: Seq<TypeView>)
    requires
        tidy(c),
        types.len() >= 1,
        types_well_formed(types),
    ensures
        tidy(type_list(c, types).1),
        type_list(c, types).0 matches Ok(t) ==> t.well_formed(),
    decreases c.tokens.len(),
{
    lemma_take_tidy(c);
    if c.peek_past(0) == Some(TokenView::Comma) {
        lemma_past_significant(c);
        lemma_past_significant(c.past_significant());
        lemma_expect_ident_shape(c.past_significant());
        match expect_ident(c.past_significant()) {
            (Err(e), behind) => {},
            (Ok(name), behind) => {
                let longer = types.push(TypeView::Defined(name));
                assert forall|i: int| 0 <= i < longer.len() implies (#[trigger] longer[i]).well_formed() by {
                    if i < types.len() {
                        assert(longer[i] == types[i]);
                    }
                }
                lemma_type_list_shape(behind, longer);
            },
        }
    } else {
        assert(types[0].well_formed());
    }
}

proof fn lemma_parse_type_shape(c: Cursor)
    requires
        tidy(c),
    ensures
        tidy(parse_type(c).1),
        parse_type(c).0 matches Ok(t) ==> t.well_formed(),
{
    lemma_take_tidy(c);
    lemma_expect_ident_shape(c);
    if c.peek_past(0) == Some(TokenView::ParenthOpen) {
        lemma_expect_ident_shape(c.past_significant());
        match expect_ident(c.past_significant()) {
            (Err(e), behind) => {},
            (Ok(first), behind) => {
                let types = seq![TypeView::Defined(first)];
                assert(types[0].well_formed());
                lemma_type_list_shape(behind, types);
            },
        }
    }
}

proof fn lemma_accessors_shape(c: Cursor, object: IdentifierView)
    requires
        tidy(c),
        object.well_formed(),
    ensures
        tidy(accessors(c, object).1),
        accessors(c, object).0 matches Ok(ident) ==> ident.well_formed(),
    decreases c.tokens.len(),
{
    if c.peek_past(0) == Some(TokenView::Period) {
        lemma_take_tidy(c);
        lemma_past_significant(c);
        lemma_past_significant(c.past_significant());
        lemma_expect_ident_shape(c.past_significant());
        match expect_ident(c.past_significant()) {
            (Err(e), behind) => {},
            (Ok(name), behind) => {
                let field = IdentifierView::Identifier(name, TypeView::Undefined);
                assert(field.well_formed());
                lemma_accessors_shape(
                    behind,
                    IdentifierView::Accessor(Box::new(object), Box::new(field)),
                );
            },
        }
    }
}

proof fn lemma_parse_simple_ident_shape(c: Cursor)
    requires
        tidy(c),
    ensures
        tidy(parse_simple_ident(c).1),
        parse_simple_ident(c).0 matches Ok(ident) ==> ident.well_formed(),
{
    lemma_expect_ident_shape(c);
    match expect_ident(c) {
        (Err(e), behind) => {},
        (Ok(name), behind) => {
            if behind.peek_past(0) == Some(TokenView::TypeAnnotator) {
                lemma_take_tidy(behind);
                lemma_parse_type_shape(behind.past_significant());
            } else {
                lemma_accessors_shape(
                    behind,
                    IdentifierView::Identifier(name, TypeView::Undefined),
                );
            }
        },
    }
}

proof fn lemma_more_idents_shape(c: Cursor, ident: IdentifierView)
    requires
        tidy(c),
        ident.well_formed(),
    ensures
        tidy(more_idents(c, ident).1),
        more_idents(c, ident).0 matches Ok(all) ==> all.well_formed(),
    decreases c.tokens.len(),
{
    if c.peek_past(0) == Some(TokenView::Comma) {
        lemma_take_tidy(c);
        lemma_past_significant(c);
        crate::grammar::lemma_parse_simple_ident(c.past_significant());
        lemma_parse_simple_ident_shape(c.past_significant());
        match parse_simple_ident(c.past_significant()) {
            (Err(e), behind) => {},
            (Ok(rhs), behind) => {
                lemma_compound_ident(ident, rhs);
                lemma_more_idents_shape(behind, ident.compound(rhs));
            },
        }
    }
}

/// An identifier that parses is well formed.
pub proof fn lemma_parse_ident_shape(c: Cursor)
    requires
        tidy(c),
    ensures
        tidy(parse_ident(c).1),
        parse_ident(c).0 matches Ok(ident) ==> ident.well_formed(),
{
    lemma_parse_simple_ident_shape(c);
    match parse_simple_ident(c) {
        (Err(e), behind) => {},
        (Ok(first), behind) => {
            lemma_more_idents_shape(behind, first);
        },
    }
}

proof fn lemma_parameters_shape(c: Cursor, params: Seq<(Seq<char>, TypeView)>)
    requires
        tidy(c),
        params_well_formed(params),
    ensures
        tidy(parameters(c, params).1),
        parameters(c, params).0 matches Ok(all) ==> params_well_formed(all),
    decreases c.tokens.len(),
{
    lemma_past_significant(c);
    lemma_expect_ident_shape(c);
    match expect_ident(c) {
        (Err(e), behind) => {},
        (Ok(name), behind) => {
            lemma_past_significant(behind);
            lemma_take_tidy(behind);
            crate::grammar::lemma_parse_type(behind.past_significant());
            lemma_parse_type_shape(behind.past_significant());
            let annotation = if behind.peek_past(0) == Some(TokenView::TypeAnnotator) {
                parse_type(behind.past_significant())
            } else {
                (Ok(TypeView::Undefined), behind)
            };
            match annotation {
                (Err(e), end) => {},
                (Ok(declared), end) => {
                    lemma_step_tidy(end);
                    let spaced = if end.peek() == Some(TokenView::Whitespace) {
                        end.step()
                    } else {
                        end
                    };
                    let longer = params.push((name, declared));
                    assert forall|i: int| 0 <= i < longer.len() implies (#[trigger] longer[i]).0.len()
                        > 0 && longer[i].1.well_formed() by {
                        if i < params.len() {
                            assert(longer[i] == params[i]);
                        }
                    }
                    lemma_take_tidy(spaced);
                    if spaced.peek_past(0) != Some(TokenView::Pipe) {
                        lemma_parameters_shape(spaced, longer);
                    }
                },
            }
        },
    }
}

/// A statement that parses is well formed.
pub proof fn lemma_parse_node_shape(c: Cursor)
    requires
        tidy(c),
    ensures
        tidy(parse_node(c).1),
        parse_node(c).0 matches Ok(Some(node)) ==> node.well_formed(),
    decreases c.tokens.len(), 12nat,
{
    lemma_past_significant(c);
    crate::grammar::lemma_parse_ident(c);
    lemma_take_tidy(c);
    if c.tokens.len() == 0 {
    } else if c.peek_past(0) == Some(TokenView::Return) {
        lemma_parse_expr_shape(c.past_significant());
    } else {
        lemma_parse_ident_shape(c);
        match parse_ident(c) {
            (Err(e), behind) => {},
            (Ok(target), behind) => {
                lemma_past_significant(behind);
                lemma_take_tidy(behind);
                if behind.peek_past(0) == Some(TokenView::Assignment) {
                    lemma_parse_expr_shape(behind.past_significant());
                } else {
                    lemma_ws_delimited_shape(behind);
                }
            },
        }
    }
}

proof fn lemma_ws_delimited_shape(c: Cursor)
    requires
        tidy(c),
    ensures
        tidy(ws_delimited(c).1),
        exprs_well_formed(ws_delimited(c).0),
    decreases c.tokens.len(), 11nat,
{
    if c.peek() == Some(TokenView::Whitespace) {
        lemma_step_tidy(c);
        lemma_ws_args_shape(Cursor { ws_delim: true, ..c.step() }, seq![]);
    }
}

proof fn lemma_ws_args_shape(c: Cursor, args: Seq<ExpressionView>)
    requires
        tidy(c),
        exprs_well_formed(args),
    ensures
        tidy(ws_args(c, args).1),
        exprs_well_formed(ws_args(c, args).0),
    decreases c.tokens.len(), 11nat,
{
    lemma_ws_args(c, args);
    lemma_parse_expr(c);
    lemma_parse_expr_shape(c);
    match parse_expr(c) {
        (Err(_), behind) => {},
        (Ok(arg), behind) => {
            let longer = args.push(arg);
            assert forall|i: int| 0 <= i < longer.len() implies (#[trigger] longer[i]).well_formed() by {
                if i < args.len() {
                    assert(longer[i] == args[i]);
                }
            }
            if behind.peek() == Some(TokenView::Whitespace) {
                lemma_step_tidy(behind);
                lemma_ws_args_shape(behind.step(), longer);
            }
        },
    }
}

/// An expression that parses is well formed.
pub proof fn lemma_parse_expr_shape(c: Cursor)
    requires
        tidy(c),
    ensures
        tidy(parse_expr(c).1),
        parse_expr(c).0 matches Ok(expr) ==> expr.well_formed(),
    decreases c.tokens.len(), 9nat,
{
    lemma_parse_expr(c);
    lemma_primary_expr_shape(c);
    match primary_expr(c) {
        (Err(e), behind) => {},
        (Ok(first), behind) => {
            crate::grammar::lemma_primary_expr(c);
            lemma_more_exprs_shape(behind, first);
        },
    }
}

proof fn lemma_primary_expr_shape(c: Cursor)
    requires
        tidy(c),
    ensures
        tidy(primary_expr(c).1),
        primary_expr(c).0 matches Ok(expr) ==> expr.well_formed(),
    decreases c.tokens.len(), 8nat,
{
    lemma_take_tidy(c);
    if c.peek_past(0) matches Some(TokenView::StringLiteral(_)) {
    } else if c.peek_past(0) == Some(TokenView::Pipe) {
        lemma_func_literal_shape(c);
    } else if c.peek_past(0) == Some(TokenView::FuncOpen) {
        lemma_function_body_shape(c);
        match function_body(c) {
            (Err(e), behind) => {},
            (Ok(statements), behind) => {
                let params: Seq<(Seq<char>, TypeView)> = seq![];
                assert(params_well_formed(params));
            },
        }
    } else {
        lemma_parse_math_expr_shape(c);
    }
}

proof fn lemma_func_literal_shape(c: Cursor)
    requires
        tidy(c),
        c.peek_past(0) == Some(TokenView::Pipe),
    ensures
        tidy(func_literal(c).1),
        func_literal(c).0 matches Ok(expr) ==> expr.well_formed(),
    decreases c.tokens.len(), 7nat,
{
    lemma_func_literal(c);
    lemma_past_significant(c);
    lemma_take_tidy(c);
    crate::grammar::lemma_parameters(c.past_significant(), seq![]);
    lemma_parameters_shape(c.past_significant(), seq![]);
    match parameters(c.past_significant(), seq![]) {
        (Err(e), behind) => {},
        (Ok(params), behind) => {
            lemma_literal_body_shape(behind);
        },
    }
}

proof fn lemma_literal_body_shape(c: Cursor)
    requires
        tidy(c),
    ensures
        tidy(literal_body(c).1),
        literal_body(c).0 matches Ok(nodes) ==> nodes_well_formed(nodes),
    decreases c.tokens.len(), 10nat,
{
    if c.peek_past(0) == Some(TokenView::FuncOpen) {
        lemma_function_body_shape(c);
    } else {
        lemma_parse_expr_shape(c);
        match parse_expr(c) {
            (Err(e), end) => {},
            (Ok(value), end) => {
                let nodes = seq![AstNodeView::Return(value)];
                assert(nodes[0].well_formed());
            },
        }
    }
}

proof fn lemma_more_exprs_shape(c: Cursor, expr: ExpressionView)
    requires
        tidy(c),
        expr.well_formed(),
    ensures
        tidy(more_exprs(c, expr).1),
        more_exprs(c, expr).0 matches Ok(all) ==> all.well_formed(),
    decreases c.tokens.len(), 1nat,
{
    lemma_more_exprs(c, expr);
    if c.peek_past(0) == Some(TokenView::Comma) {
        lemma_past_significant(c);
        lemma_take_tidy(c);
        crate::grammar::lemma_primary_expr(c.past_significant());
        lemma_primary_expr_shape(c.past_significant());
        match primary_expr(c.past_significant()) {
            (Err(e), behind) => {},
            (Ok(rhs), behind) => {
                lemma_compound_expr(expr, rhs);
                lemma_more_exprs_shape(behind, expr.compound(rhs));
            },
        }
    }
}

proof fn lemma_function_body_shape(c: Cursor)
    requires
        tidy(c),
    ensures
        tidy(function_body(c).1),
        function_body(c).0 matches Ok(nodes) ==> nodes_well_formed(nodes),
    decreases c.tokens.len(), 7nat,
{
    lemma_past_significant(c);
    lemma_take_tidy(c);
    match expect_token(c, TokenView::FuncOpen) {
        (Err(e), behind) => {},
        (Ok(_), behind) => {
            lemma_statements_shape(behind, seq![]);
        },
    }
}

proof fn lemma_statements_shape(c: Cursor, nodes: Seq<AstNodeView>)
    requires
        tidy(c),
        nodes_well_formed(nodes),
    ensures
        tidy(statements(c, nodes).1),
        statements(c, nodes).0 matches Ok(all) ==> nodes_well_formed(all),
    decreases c.tokens.len(), 13nat,
{
    lemma_statements(c, nodes);
    lemma_take_tidy(c);
    if c.peek_past(0) != Some(TokenView::FuncClose) {
        crate::grammar::lemma_parse_node(c);
        lemma_parse_node_shape(c);
        match parse_node(c) {
            (Err(e), behind) => {},
            (Ok(None), behind) => {
                lemma_take_tidy(behind);
            },
            (Ok(Some(node)), behind) => {
                let longer = nodes.push(node);
                assert forall|i: int| 0 <= i < longer.len() implies (#[trigger] longer[i]).well_formed() by {
                    if i < nodes.len() {
                        assert(longer[i] == nodes[i]);
                    }
                }
                lemma_statements_shape(behind, longer);
            },
        }
    }
}

/// An arithmetic expression that parses is well formed.
pub proof fn lemma_parse_math_expr_shape(c: Cursor)
    requires
        tidy(c),
    ensures
        tidy(parse_math_expr(c).1),
        parse_math_expr(c).0 matches Ok(expr) ==> expr.well_formed(),
    decreases c.tokens.len(), 6nat,
{
    lemma_parse_math_expr(c);
    lemma_parse_multiplicative_expr(c);
    lemma_parse_multiplicative_expr_shape(c);
    match parse_multiplicative_expr(c) {
        (Err(e), behind) => {},
        (Ok(left), behind) => {
            lemma_additions_shape(behind, left);
        },
    }
}

proof fn lemma_additions_shape(c: Cursor, left: MathExprView)
    requires
        tidy(c),
        left.well_formed(),
    ensures
        tidy(additions(c, left).1),
        additions(c, left).0 matches Ok(expr) ==> expr.well_formed(),
    decreases c.tokens.len(), 1nat,
{
    lemma_additions(c, left);
    match crate::grammar::additive_op(c.peek_past(0)) {
        None => {},
        Some(op) => {
            lemma_past_significant(c);
            lemma_take_tidy(c);
            lemma_parse_multiplicative_expr(c.past_significant());
            lemma_parse_multiplicative_expr_shape(c.past_significant());
            match parse_multiplicative_expr(c.past_significant()) {
                (Err(e), behind) => {},
                (Ok(right), behind) => {
                    lemma_additions_shape(
                        behind,
                        MathExprView::BinaryOp(Box::new(left), Box::new(right), op),
                    );
                },
            }
        },
    }
}

proof fn lemma_parse_multiplicative_expr_shape(c: Cursor)
    requires
        tidy(c),
    ensures
        tidy(parse_multiplicative_expr(c).1),
        parse_multiplicative_expr(c).0 matches Ok(expr) ==> expr.well_formed(),
    decreases c.tokens.len(), 5nat,
{
    lemma_parse_multiplicative_expr(c);
    crate::grammar::lemma_parse_parenth_expr(c);
    lemma_parse_parenth_expr_shape(c);
    match parse_parenth_expr(c) {
        (Err(e), behind) => {},
        (Ok(left), behind) => {
            lemma_multiplications_shape(behind, left);
        },
    }
}

proof fn lemma_multiplications_shape(c: Cursor, left: MathExprView)
    requires
        tidy(c),
        left.well_formed(),
    ensures
        tidy(multiplications(c, left).1),
        multiplications(c, left).0 matches Ok(expr) ==> expr.well_formed(),
    decreases c.tokens.len(), 1nat,
{
    lemma_multiplications(c, left);
    match crate::grammar::multiplicative_op(c.peek_past(0)) {
        None => {},
        Some(op) => {
            lemma_past_significant(c);
            lemma_take_tidy(c);
            crate::grammar::lemma_parse_parenth_expr(c.past_significant());
            lemma_parse_parenth_expr_shape(c.past_significant());
            match parse_parenth_expr(c.past_significant()) {
                (Err(e), behind) => {},
                (Ok(right), behind) => {
                    lemma_multiplications_shape(
                        behind,
                        MathExprView::BinaryOp(Box::new(left), Box::new(right), op),
                    );
                },
            }
        },
    }
}

proof fn lemma_parse_parenth_expr_shape(c: Cursor)
    requires
        tidy(c),
    ensures
        tidy(parse_parenth_expr(c).1),
        parse_parenth_expr(c).0 matches Ok(expr) ==> expr.well_formed(),
    decreases c.tokens.len(), 4nat,
{
    lemma_past_significant(c);
    lemma_take_tidy(c);
    if c.peek_past(0) == Some(TokenView::ParenthOpen) {
        let inside = Cursor { in_parenth: true, ..c.past_significant() };
        lemma_parse_math_expr_shape(inside);
        match parse_math_expr(inside) {
            (Err(e), behind) => {},
            (Ok(inner), behind) => {
                lemma_take_tidy(Cursor { in_parenth: false, ..behind });
            },
        }
    } else {
        lemma_parse_unary_expr_shape(c);
    }
}

proof fn lemma_parse_unary_expr_shape(c: Cursor)
    requires
        tidy(c),
    ensures
        tidy(parse_unary_expr(c).1),
        parse_unary_expr(c).0 matches Ok(expr) ==> expr.well_formed(),
    decreases c.tokens.len(), 3nat,
{
    lemma_past_significant(c);
    lemma_take_tidy(c);
    lemma_step_tidy(c);
    crate::grammar::lemma_parse_ident(c);
    if c.peek_past(0) == Some(TokenView::Subtraction) {
        lemma_parse_parenth_expr_shape(c.past_significant());
    } else if c.peek_past(0) matches Some(TokenView::Number(_)) {
    } else if c.peek_past(0) matches Some(TokenView::Ident(_)) {
        lemma_parse_ident_shape(c);
        match parse_ident(c) {
            (Err(e), behind) => {},
            (Ok(ident), behind) => {
                lemma_step_tidy(behind);
                lemma_ws_delimited_shape(behind);
            },
        }
    } else {
    }
}

/// The statements of a whole parse are well formed, if those it began with
/// are.
pub proof fn lemma_parse_all_shape(c: Cursor, nodes: Seq<AstNodeView>, errs: Seq<ParserErrView>)
    requires
        tidy(c),
        nodes_well_formed(nodes),
    ensures
        nodes_well_formed(parse_all(c, nodes, errs).0),
    decreases c.tokens.len(),
{
    lemma_parse_all(c, nodes, errs);
    crate::grammar::lemma_skip_empty(c);
    lemma_skip_empty_tidy(c);
    crate::grammar::lemma_parse_node(c.skip_empty());
    lemma_parse_node_shape(c.skip_empty());
    match parse_node(c.skip_empty()) {
        (Ok(None), behind) => {},
        (Ok(Some(node)), behind) => {
            let longer = nodes.push(node);
            assert forall|i: int| 0 <= i < longer.len() implies (#[trigger] longer[i]).well_formed() by {
                if i < nodes.len() {
                    assert(longer[i] == nodes[i]);
                }
            }
            lemma_parse_all_shape(behind, longer, errs);
        },
        (Err(e), behind) => {
            lemma_parse_all_shape(behind, nodes, errs.push(e));
        },
    }
}

/// Every statement of every source text is well formed: its compounds have
/// at least two members each, and none of its names is empty.
pub proof fn lemma_statements_well_formed(source: Seq<char>)
    ensures
        nodes_well_formed(statements_of(source)),
{
    lemma_lexed_names(source);
    lemma_parse_all_shape(start_of(source), seq![], seq![]);
}

} // verus!
