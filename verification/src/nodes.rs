//! The syntax tree: statements, expressions and identifiers, each with the
//! mathematical value it stands for.

use vstd::prelude::*;
use crate::types::number::NumberView;
use crate::types::{Number, Type, TypeView};

verus! {

/// Binary operators of arithmetic expressions.
#[derive(Debug, Clone, Copy, PartialEq, Eq, Structural)]
pub enum MathOp {
    Add,
    Sub,
    Mul,
    Div,
    Pow,
    Mod,
}

/// What an assignment or a call names.
#[derive(Debug, PartialEq)]
pub enum Identifier {
    /// A name, with its declared type or `Type::Undefined`.
    Identifier(String, Type),
    /// A dotted path: what stands left of the last dot, and the name right
    /// of it.
    Accessor(Box<Identifier>, Box<Identifier>),
    /// Several identifiers joined by commas.
    Compound(Vec<Identifier>),
}

/// Mathematical value of an [`Identifier`].
pub enum IdentifierView {
    Identifier(Seq<char>, TypeView),
    Accessor(Box<IdentifierView>, Box<IdentifierView>),
    Compound(Seq<IdentifierView>),
}

/// An arithmetic expression.
#[derive(Debug, PartialEq)]
pub enum MathExpr {
    Literal(Number),
    Identifier(Identifier),
    BinaryOp(Box<MathExpr>, Box<MathExpr>, MathOp),
    Negate(Box<MathExpr>),
    FuncCall(Identifier, Vec<Expression>),
}

/// An expression.
#[derive(Debug, PartialEq)]
pub enum Expression {
    MathExpr(MathExpr),
    StrLiteral(String),
    /// Several expressions joined by commas.
    Compound(Vec<Expression>),
    FuncLiteral { params: Vec<(String, Type)>, statements: Vec<AstNode>, return_type: Type },
}

/// A statement.
#[derive(Debug, PartialEq)]
pub enum AstNode {
    Assignment(Identifier, Expression),
    /// A call at statement level, its arguments separated by single spaces.
    ImpFuncCall(Identifier, Vec<Expression>),
    Return(Expression),
    Expression(Expression),
}

/// Mathematical value of a [`MathExpr`].
pub enum MathExprView {
    Literal(NumberView),
    Identifier(IdentifierView),
    BinaryOp(Box<MathExprView>, Box<MathExprView>, MathOp),
    Negate(Box<MathExprView>),
    FuncCall(IdentifierView, Seq<ExpressionView>),
}

/// Mathematical value of an [`Expression`].
pub enum ExpressionView {
    MathExpr(MathExprView),
    StrLiteral(Seq<char>),
    Compound(Seq<ExpressionView>),
    FuncLiteral {
        params: Seq<(Seq<char>, TypeView)>,
        statements: Seq<AstNodeView>,
        return_type: TypeView,
    },
}

/// Mathematical value of an [`AstNode`].
pub enum AstNodeView {
    Assignment(IdentifierView, ExpressionView),
    ImpFuncCall(IdentifierView, Seq<ExpressionView>),
    Return(ExpressionView),
    Expression(ExpressionView),
}

impl Identifier {
    /// The value this identifier stands for.
    pub open spec fn model(&self) -> IdentifierView
        decreases self,
    {
        match self {
            Identifier::Identifier(name, declared) => IdentifierView::Identifier(
                name@,
                declared@,
            ),
            Identifier::Accessor(object, field) => IdentifierView::Accessor(
                Box::new((**object).model()),
                Box::new((**field).model()),
            ),
            Identifier::Compound(members) => IdentifierView::Compound(
                identifier_views(members@),
            ),
        }
    }
}

/// The values of a list of identifiers.
pub open spec fn identifier_views(idents: Seq<Identifier>) -> Seq<IdentifierView>
    decreases idents,
{
    Seq::new(
        idents.len(),
        |i: int|
            if 0 <= i < idents.len() {
                idents[i].model()
            } else {
                IdentifierView::Compound(seq![])
            },
    )
}

impl View for Identifier {
    type V = IdentifierView;

    open spec fn view(&self) -> IdentifierView {
        self.model()
    }
}

impl MathExpr {
    /// The value this expression stands for.
    pub open spec fn model(&self) -> MathExprView
        decreases self,
    {
        match self {
            MathExpr::Literal(n) => MathExprView::Literal(n@),
            MathExpr::Identifier(ident) => MathExprView::Identifier(ident@),
            MathExpr::BinaryOp(lhs, rhs, op) => MathExprView::BinaryOp(
                Box::new((**lhs).model()),
                Box::new((**rhs).model()),
                *op,
            ),
            MathExpr::Negate(inner) => MathExprView::Negate(Box::new((**inner).model())),
            MathExpr::FuncCall(ident, args) => MathExprView::FuncCall(
                ident@,
                expression_views(args@),
            ),
        }
    }
}

impl Expression {
    /// The value this expression stands for.
    pub open spec fn model(&self) -> ExpressionView
        decreases self,
    {
        match self {
            Expression::MathExpr(e) => ExpressionView::MathExpr(e.model()),
            Expression::StrLiteral(s) => ExpressionView::StrLiteral(s@),
            Expression::Compound(members) => ExpressionView::Compound(expression_views(members@)),
            Expression::FuncLiteral { params, statements, return_type } => {
                ExpressionView::FuncLiteral {
                    params: param_views(params@),
                    statements: node_views(statements@),
                    return_type: return_type@,
                }
            },
        }
    }
}

impl AstNode {
    /// The value this statement stands for.
    pub open spec fn model(&self) -> AstNodeView
        decreases self,
    {
        match self {
            AstNode::Assignment(ident, expr) => AstNodeView::Assignment(ident@, expr.model()),
            AstNode::ImpFuncCall(ident, args) => AstNodeView::ImpFuncCall(
                ident@,
                expression_views(args@),
            ),
            AstNode::Return(expr) => AstNodeView::Return(expr.model()),
            AstNode::Expression(expr) => AstNodeView::Expression(expr.model()),
        }
    }
}

/// The values of a list of expressions.
pub open spec fn expression_views(exprs: Seq<Expression>) -> Seq<ExpressionView>
    decreases exprs,
{
    Seq::new(
        exprs.len(),
        |i: int|
            if 0 <= i < exprs.len() {
                exprs[i].model()
            } else {
                ExpressionView::Compound(seq![])
            },
    )
}

/// The values of a list of statements.
pub open spec fn node_views(nodes: Seq<AstNode>) -> Seq<AstNodeView>
    decreases nodes,
{
    Seq::new(
        nodes.len(),
        |i: int|
            if 0 <= i < nodes.len() {
                nodes[i].model()
            } else {
                AstNodeView::Expression(ExpressionView::Compound(seq![]))
            },
    )
}

/// The values of a parameter list.
pub open spec fn param_views(params: Seq<(String, Type)>) -> Seq<(Seq<char>, TypeView)> {
    Seq::new(params.len(), |i: int| (params[i].0@, params[i].1@))
}

impl View for MathExpr {
    type V = MathExprView;

    open spec fn view(&self) -> MathExprView {
        self.model()
    }
}

impl View for Expression {
    type V = ExpressionView;

    open spec fn view(&self) -> ExpressionView {
        self.model()
    }
}

impl View for AstNode {
    type V = AstNodeView;

    open spec fn view(&self) -> AstNodeView {
        self.model()
    }
}

impl IdentifierView {
    /// Joins `other` to this identifier: a compound gains a member, anything
    /// else becomes the first of two members.
    pub open spec fn compound(self, other: IdentifierView) -> IdentifierView {
        match self {
            IdentifierView::Compound(members) => IdentifierView::Compound(members.push(other)),
            _ => IdentifierView::Compound(seq![self, other]),
        }
    }
}

impl ExpressionView {
    /// Joins `other` to this expression: a compound gains a member, anything
    /// else becomes the first of two members.
    pub open spec fn compound(self, other: ExpressionView) -> ExpressionView {
        match self {
            ExpressionView::Compound(members) => ExpressionView::Compound(members.push(other)),
            _ => ExpressionView::Compound(seq![self, other]),
        }
    }
}

/// The values of a list that gained a member.
pub proof fn lemma_identifier_views_push(idents: Seq<Identifier>, last: Identifier)
    ensures
        identifier_views(idents.push(last)) == identifier_views(idents).push(last@),
{
    assert(identifier_views(idents.push(last)) =~= identifier_views(idents).push(last@));
}

/// The values of a list that gained a member.
pub proof fn lemma_expression_views_push(exprs: Seq<Expression>, last: Expression)
    ensures
        expression_views(exprs.push(last)) == expression_views(exprs).push(last@),
{
    assert(expression_views(exprs.push(last)) =~= expression_views(exprs).push(last@));
}

/// The values of a list that gained a member.
pub proof fn lemma_node_views_push(nodes: Seq<AstNode>, last: AstNode)
    ensures
        node_views(nodes.push(last)) == node_views(nodes).push(last@),
{
    assert(node_views(nodes.push(last)) =~= node_views(nodes).push(last@));
}

/// The values of a list that gained a member.
pub proof fn lemma_param_views_push(params: Seq<(String, Type)>, last: (String, Type))
    ensures
        param_views(params.push(last)) == param_views(params).push((last.0@, last.1@)),
{
    assert(param_views(params.push(last)) =~= param_views(params).push((last.0@, last.1@)));
}

impl Identifier {
    /// Joins `other` to this identifier: a compound gains a member, anything
    /// else becomes the first of two members.
    pub fn compound(self, other: Identifier) -> (joined: Identifier)
        ensures
            joined@ == self@.compound(other@),
    {
        if let Identifier::Compound(mut v) = self {
            proof {
                lemma_identifier_views_push(v@, other);
            }
            v.push(other);
            return Identifier::Compound(v);
        }
        let ghost first = self;
        let mut v: Vec<Identifier> = Vec::new();
        v.push(self);
        v.push(other);
        assert(identifier_views(v@) =~= seq![first@, other@]);
        Identifier::Compound(v)
    }
}

impl Expression {
    /// Joins `other` to this expression: a compound gains a member, anything
    /// else becomes the first of two members.
    pub fn compound(self, other: Expression) -> (joined: Expression)
        ensures
            joined@ == self@.compound(other@),
    {
        if let Expression::Compound(mut v) = self {
            proof {
                lemma_expression_views_push(v@, other);
            }
            v.push(other);
            return Expression::Compound(v);
        }
        let ghost first = self;
        let mut v: Vec<Expression> = Vec::new();
        v.push(self);
        v.push(other);
        assert(expression_views(v@) =~= seq![first@, other@]);
        Expression::Compound(v)
    }
}

impl Clone for Identifier {
    fn clone(&self) -> (copy: Identifier)
        ensures
            copy@ == self@,
    {
        self.duplicate()
    }
}

impl Clone for MathExpr {
    fn clone(&self) -> (copy: MathExpr)
        ensures
            copy@ == self@,
    {
        self.duplicate()
    }
}

impl Clone for Expression {
    fn clone(&self) -> (copy: Expression)
        ensures
            copy@ == self@,
    {
        self.duplicate()
    }
}

impl Clone for AstNode {
    fn clone(&self) -> (copy: AstNode)
        ensures
            copy@ == self@,
    {
        self.duplicate()
    }
}

impl Identifier {
    /// A copy of this identifier.
    pub fn duplicate(&self) -> (copy: Identifier)
        ensures
            copy@ == self@,
        decreases self,
    {
        match self {
            Identifier::Identifier(name, declared) => Identifier::Identifier(
                name.clone(),
                declared.clone(),
            ),
            Identifier::Accessor(object, field) => Identifier::Accessor(
                Box::new((**object).duplicate()),
                Box::new((**field).duplicate()),
            ),
            Identifier::Compound(members) => {
                let mut out: Vec<Identifier> = Vec::new();
                let mut i: usize = 0;
                while i < members.len()
                    invariant
                        i <= members.len(),
                        out.len() == i,
                        self is Compound,
                        self->Compound_0 == members,
                        forall|j: int| 0 <= j < i ==> out@[j]@ == members@[j]@,
                    decreases members.len() - i,
                {
                    out.push(members[i].duplicate());
                    i = i + 1;
                }
                assert(identifier_views(out@) =~= identifier_views(members@));
                Identifier::Compound(out)
            },
        }
    }
}

/// Copies of the expressions of a list.
fn duplicate_exprs(exprs: &Vec<Expression>) -> (copy: Vec<Expression>)
    ensures
        expression_views(copy@) == expression_views(exprs@),
    decreases exprs,
{
    let mut out: Vec<Expression> = Vec::new();
    let mut i: usize = 0;
    while i < exprs.len()
        invariant
            i <= exprs.len(),
            out.len() == i,
            forall|j: int| 0 <= j < i ==> out@[j]@ == exprs@[j]@,
        decreases exprs.len() - i,
    {
        out.push(exprs[i].duplicate());
        i = i + 1;
    }
    assert(expression_views(out@) =~= expression_views(exprs@));
    out
}

/// Copies of the statements of a list.
fn duplicate_nodes(nodes: &Vec<AstNode>) -> (copy: Vec<AstNode>)
    ensures
        node_views(copy@) == node_views(nodes@),
    decreases nodes,
{
    let mut out: Vec<AstNode> = Vec::new();
    let mut i: usize = 0;
    while i < nodes.len()
        invariant
            i <= nodes.len(),
            out.len() == i,
            forall|j: int| 0 <= j < i ==> out@[j]@ == nodes@[j]@,
        decreases nodes.len() - i,
    {
        out.push(nodes[i].duplicate());
        i = i + 1;
    }
    assert(node_views(out@) =~= node_views(nodes@));
    out
}

/// Copies of the parameters of a list.
fn duplicate_params(params: &Vec<(String, Type)>) -> (copy: Vec<(String, Type)>)
    ensures
        param_views(copy@) == param_views(params@),
{
    let mut out: Vec<(String, Type)> = Vec::new();
    let mut i: usize = 0;
    while i < params.len()
        invariant
            i <= params.len(),
            out.len() == i,
            forall|j: int|
                0 <= j < i ==> out@[j].0@ == params@[j].0@ && out@[j].1@ == params@[j].1@,
        decreases params.len() - i,
    {
        out.push((params[i].0.clone(), params[i].1.clone()));
        i = i + 1;
    }
    assert(param_views(out@) =~= param_views(params@));
    out
}

impl MathExpr {
    /// A copy of this expression.
    pub fn duplicate(&self) -> (copy: MathExpr)
        ensures
            copy@ == self@,
        decreases self,
    {
        match self {
            MathExpr::Literal(n) => MathExpr::Literal(n.clone()),
            MathExpr::Identifier(ident) => MathExpr::Identifier(ident.duplicate()),
            MathExpr::BinaryOp(lhs, rhs, op) => MathExpr::BinaryOp(
                Box::new((**lhs).duplicate()),
                Box::new((**rhs).duplicate()),
                *op,
            ),
            MathExpr::Negate(inner) => MathExpr::Negate(Box::new((**inner).duplicate())),
            MathExpr::FuncCall(ident, args) => MathExpr::FuncCall(
                ident.duplicate(),
                duplicate_exprs(args),
            ),
        }
    }
}

impl Expression {
    /// A copy of this expression.
    pub fn duplicate(&self) -> (copy: Expression)
        ensures
            copy@ == self@,
        decreases self,
    {
        match self {
            Expression::MathExpr(e) => Expression::MathExpr(e.duplicate()),
            Expression::StrLiteral(s) => Expression::StrLiteral(s.clone()),
            Expression::Compound(members) => Expression::Compound(duplicate_exprs(members)),
            Expression::FuncLiteral { params, statements, return_type } => {
                Expression::FuncLiteral {
                    params: duplicate_params(params),
                    statements: duplicate_nodes(statements),
                    return_type: return_type.clone(),
                }
            },
        }
    }
}

impl AstNode {
    /// A copy of this statement.
    pub fn duplicate(&self) -> (copy: AstNode)
        ensures
            copy@ == self@,
        decreases self,
    {
        match self {
            AstNode::Assignment(ident, expr) => AstNode::Assignment(
                ident.duplicate(),
                expr.duplicate(),
            ),
            AstNode::ImpFuncCall(ident, args) => AstNode::ImpFuncCall(
                ident.duplicate(),
                duplicate_exprs(args),
            ),
            AstNode::Return(expr) => AstNode::Return(expr.duplicate()),
            AstNode::Expression(expr) => AstNode::Expression(expr.duplicate()),
        }
    }
}

} // verus!
