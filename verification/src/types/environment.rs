//! The type environment: which type each name has.

use vstd::prelude::*;
use crate::error::{ParserErr, ParserErrView};
use crate::nodes::{
    Expression, ExpressionView, Identifier, IdentifierView, MathExpr, MathExprView,
};
use crate::types::number::number_prim_type;
use crate::text::chars_of;
use crate::types::{type_views, PrimitiveType, Type, TypeView};

verus! {

/// The types of the names that were assigned so far.
pub struct TypeEnvironment {
    entries: Vec<(String, Type)>,
}

/// The mapping that a list of assignments leaves: the last assignment to a
/// name wins.
pub open spec fn bindings(entries: Seq<(String, Type)>) -> Map<Seq<char>, TypeView>
    decreases entries.len(),
{
    if entries.len() == 0 {
        Map::empty()
    } else {
        bindings(entries.drop_last()).insert(entries.last().0@, entries.last().1@)
    }
}

impl View for TypeEnvironment {
    type V = Map<Seq<char>, TypeView>;

    closed spec fn view(&self) -> Map<Seq<char>, TypeView> {
        bindings(self.entries@)
    }
}

/// Whether each member of a compound has a type.
pub open spec fn all_ok(types: Seq<Result<TypeView, ParserErrView>>) -> bool {
    forall|i: int| 0 <= i < types.len() ==> (#[trigger] types[i]) is Ok
}

/// The index of the first member that has no type.
pub open spec fn first_err(types: Seq<Result<TypeView, ParserErrView>>) -> int
    decreases types.len(),
{
    if types.len() == 0 || types[0] is Err {
        0
    } else {
        1 + first_err(types.skip(1))
    }
}

/// The compound of the members' types, or the diagnostic of the first
/// member that has none.
pub open spec fn compound_type(types: Seq<Result<TypeView, ParserErrView>>) -> Result<
    TypeView,
    ParserErrView,
> {
    if all_ok(types) {
        Ok(TypeView::Compound(Seq::new(types.len(), |i: int| types[i]->Ok_0)))
    } else {
        Err(types[first_err(types)]->Err_0)
    }
}

/// The type an identifier carries: its declared type, the compound of its
/// members' types, and `Undefined` for an accessor.
pub open spec fn ident_type(ident: IdentifierView) -> TypeView
    decreases ident,
{
    match ident {
        IdentifierView::Identifier(_, declared) => declared,
        IdentifierView::Accessor(_, _) => TypeView::Undefined,
        IdentifierView::Compound(members) => TypeView::Compound(ident_types(members)),
    }
}

/// The types that the identifiers of a list carry.
pub open spec fn ident_types(members: Seq<IdentifierView>) -> Seq<TypeView>
    decreases members,
{
    Seq::new(
        members.len(),
        |i: int|
            if 0 <= i < members.len() {
                ident_type(members[i])
            } else {
                TypeView::Undefined
            },
    )
}

/// The type of a binary operation on operands of the types `lhs` and `rhs`:
/// their common type where they are equal, the wider one where one is
/// strictly wider, and a diagnostic that names both otherwise.
pub open spec fn widened(lhs: TypeView, rhs: TypeView) -> Result<TypeView, ParserErrView> {
    if lhs == rhs {
        Ok(lhs)
    } else if lhs.narrower_than(rhs) {
        Ok(rhs)
    } else if rhs.narrower_than(lhs) {
        Ok(lhs)
    } else {
        Err(ParserErrView::UnmatchedTypes { predicted: lhs, declared: rhs })
    }
}

/// The type of a binary operation does not depend on the order of its
/// operands: where it has a type one way round, it has that type the other
/// way round.
pub proof fn law_widening_is_symmetric(lhs: TypeView, rhs: TypeView)
    ensures
        widened(lhs, rhs) matches Ok(t) ==> widened(rhs, lhs) == Ok::<TypeView, ParserErrView>(t),
        widened(lhs, rhs) is Err <==> widened(rhs, lhs) is Err,
        widened(lhs, rhs) matches Ok(t) ==> t == lhs || t == rhs,
        widened(lhs, lhs) == Ok::<TypeView, ParserErrView>(lhs),
{
}

/// The type of an arithmetic expression.
pub open spec fn math_type(expr: MathExprView) -> Result<TypeView, ParserErrView>
    decreases expr,
{
    match expr {
        MathExprView::Literal(n) => Ok(TypeView::Primitive(number_prim_type(n))),
        MathExprView::Identifier(ident) => Ok(ident_type(ident)),
        MathExprView::BinaryOp(lhs, rhs, _) => match math_type(*lhs) {
            Err(e) => Err(e),
            Ok(l) => match math_type(*rhs) {
                Err(e) => Err(e),
                Ok(r) => widened(l, r),
            },
        },
        MathExprView::Negate(inner) => math_type(*inner),
        MathExprView::FuncCall(ident, _) => Ok(ident_type(ident)),
    }
}

/// The type of an expression, as far as it can be told from the expression
/// alone: a string literal is a string, a function literal a function to its
/// return type, a compound the compound of its members' types.
pub open spec fn predicted_type(expr: ExpressionView) -> Result<TypeView, ParserErrView>
    decreases expr,
{
    match expr {
        ExpressionView::MathExpr(e) => math_type(e),
        ExpressionView::StrLiteral(_) => Ok(TypeView::Primitive(PrimitiveType::Str)),
        ExpressionView::Compound(members) => compound_type(predicted_types(members)),
        ExpressionView::FuncLiteral { return_type, .. } => Ok(
            TypeView::Function(Box::new(return_type)),
        ),
    }
}

/// The types of the expressions of a list.
pub open spec fn predicted_types(members: Seq<ExpressionView>) -> Seq<
    Result<TypeView, ParserErrView>,
>
    decreases members,
{
    Seq::new(
        members.len(),
        |i: int|
            if 0 <= i < members.len() {
                predicted_type(members[i])
            } else {
                Ok(TypeView::Undefined)
            },
    )
}

/// The first member without a type is the one before which all have one.
proof fn lemma_first_err(types: Seq<Result<TypeView, ParserErrView>>, i: int)
    requires
        0 <= i < types.len(),
        types[i] is Err,
        forall|j: int| 0 <= j < i ==> (#[trigger] types[j]) is Ok,
    ensures
        first_err(types) == i,
        !all_ok(types),
    decreases i,
{
    if i > 0 {
        let rest = types.skip(1);
        assert forall|j: int| 0 <= j < i - 1 implies (#[trigger] rest[j]) is Ok by {
            assert(rest[j] == types[j + 1]);
        }
        lemma_first_err(rest, i - 1);
    }
}

/// What a lookup from the last entry backwards finds is what the mapping
/// holds.
proof fn lemma_bindings_lookup(entries: Seq<(String, Type)>, name: Seq<char>, i: int)
    requires
        0 <= i <= entries.len(),
        forall|j: int| i <= j < entries.len() ==> (#[trigger] entries[j]).0@ != name,
    ensures
        i == 0 ==> !bindings(entries).contains_key(name),
        i > 0 && entries[i - 1].0@ == name ==> bindings(entries).contains_key(name) && bindings(
            entries,
        )[name] == entries[i - 1].1@,
    decreases entries.len(),
{
    if entries.len() > i {
        let shorter = entries.drop_last();
        assert forall|j: int| i <= j < shorter.len() implies (#[trigger] shorter[j]).0@
            != name by {
            assert(shorter[j] == entries[j]);
        }
        lemma_bindings_lookup(shorter, name, i);
        assert(entries.last().0@ != name);
        if i > 0 {
            assert(shorter[i - 1] == entries[i - 1]);
        }
    }
}

/// Whether two texts are the same.
fn same_text(a: &str, b: &str) -> (same: bool)
    ensures
        same == (a@ == b@),
{
    let x = chars_of(a);
    let y = chars_of(b);
    if x.len() != y.len() {
        return false;
    }
    let mut i: usize = 0;
    while i < x.len()
        invariant
            i <= x.len(),
            x.len() == y.len(),
            x@ == a@,
            y@ == b@,
            forall|j: int| 0 <= j < i ==> x@[j] == y@[j],
        decreases x.len() - i,
    {
        if x[i] != y[i] {
            return false;
        }
        i = i + 1;
    }
    assert(x@ =~= y@);
    true
}

impl TypeEnvironment {
    /// An environment without names.
    pub fn new() -> (env: TypeEnvironment)
        ensures
            env@ == Map::<Seq<char>, TypeView>::empty(),
    {
        TypeEnvironment { entries: Vec::new() }
    }

    /// Forgets every name.
    pub fn clear(&mut self)
        ensures
            final(self)@ == Map::<Seq<char>, TypeView>::empty(),
    {
        self.entries.clear();
    }

    /// Gives `ident` the type `type_`, whatever type it had.
    pub fn assign(&mut self, ident: String, type_: Type)
        ensures
            final(self)@ == old(self)@.insert(ident@, type_@),
    {
        self.entries.push((ident, type_));
        assert(self.entries@.drop_last() =~= old(self).entries@);
    }

    /// The type that `name` was last given, if it was given one.
    pub fn get(&self, name: &str) -> (r: Option<&Type>)
        ensures
            match r {
                Some(t) => self@.contains_key(name@) && self@[name@] == t@,
                None => !self@.contains_key(name@),
            },
    {
        let mut i: usize = self.entries.len();
        while i > 0
            invariant
                i <= self.entries@.len(),
                forall|j: int| i <= j < self.entries@.len() ==> (#[trigger] self.entries@[j]).0@
                    != name@,
            decreases i,
        {
            if same_text(self.entries[i - 1].0.as_str(), name) {
                proof {
                    lemma_bindings_lookup(self.entries@, name@, i as int);
                }
                return Some(&self.entries[i - 1].1);
            }
            i = i - 1;
        }
        proof {
            lemma_bindings_lookup(self.entries@, name@, 0);
        }
        None
    }

    /// The type of an expression, as far as it can be told from the
    /// expression alone, or the diagnostic of the first binary operation in
    /// it whose operand types cannot be brought together.
    pub fn predict_type(expr: &Expression) -> (r: Result<Type, ParserErr>)
        ensures
            match r {
                Ok(t) => predicted_type(expr@) == Ok::<TypeView, ParserErrView>(t@),
                Err(e) => predicted_type(expr@) == Err::<TypeView, ParserErrView>(e@),
            },
        decreases expr,
    {
        match expr {
            Expression::MathExpr(e) => TypeEnvironment::type_math_expr(e),
            Expression::StrLiteral(_) => Ok(Type::Primitive(PrimitiveType::Str)),
            Expression::Compound(members) => {
                let ghost results = predicted_types(crate::nodes::expression_views(members@));
                assert forall|j: int| 0 <= j < members@.len() implies #[trigger] results[j]
                    == predicted_type(members@[j]@) by {
                    assert(crate::nodes::expression_views(members@)[j] == members@[j]@);
                }
                let mut types: Vec<Type> = Vec::new();
                let mut i: usize = 0;
                while i < members.len()
                    invariant
                        i <= members.len(),
                        types.len() == i,
                        expr is Compound,
                        expr->Compound_0 == members,
                        results.len() == members@.len(),
                        results == predicted_types(crate::nodes::expression_views(members@)),
                        forall|j: int|
                            0 <= j < members@.len() ==> #[trigger] results[j] == predicted_type(
                                members@[j]@,
                            ),
                        forall|j: int|
                            0 <= j < i ==> (#[trigger] results[j]) == Ok::<
                                TypeView,
                                ParserErrView,
                            >(types@[j]@),
                    decreases members.len() - i,
                {
                    match TypeEnvironment::predict_type(&members[i]) {
                        Ok(t) => {
                            types.push(t);
                        },
                        Err(e) => {
                            proof {
                                lemma_first_err(results, i as int);
                            }
                            return Err(e);
                        },
                    }
                    i = i + 1;
                }
                assert(all_ok(results));
                assert(type_views(types@) =~= Seq::new(results.len(), |i: int| results[i]->Ok_0));
                Ok(Type::Compound(types))
            },
            Expression::FuncLiteral { return_type, .. } => Ok(
                Type::Function(Box::new(return_type.clone())),
            ),
        }
    }

    /// The type an identifier carries.
    fn type_ident(ident: &Identifier) -> (t: Type)
        ensures
            t@ == ident_type(ident@),
        decreases ident,
    {
        match ident {
            Identifier::Identifier(_, declared) => declared.clone(),
            Identifier::Accessor(_, _) => Type::Undefined,
            Identifier::Compound(members) => {
                let mut types: Vec<Type> = Vec::new();
                let mut i: usize = 0;
                while i < members.len()
                    invariant
                        i <= members.len(),
                        types.len() == i,
                        ident is Compound,
                        ident->Compound_0 == members,
                        forall|j: int| 0 <= j < i ==> types@[j]@ == ident_type(members@[j]@),
                    decreases members.len() - i,
                {
                    types.push(TypeEnvironment::type_ident(&members[i]));
                    i = i + 1;
                }
                assert forall|j: int| 0 <= j < types@.len() implies type_views(types@)[j]
                    == ident_types(crate::nodes::identifier_views(members@))[j] by {
                    assert(crate::nodes::identifier_views(members@)[j] == members@[j]@);
                }
                assert(type_views(types@) =~= ident_types(
                    crate::nodes::identifier_views(members@),
                ));
                Type::Compound(types)
            },
        }
    }

    /// The type of an arithmetic expression.
    fn type_math_expr(expr: &MathExpr) -> (r: Result<Type, ParserErr>)
        ensures
            match r {
                Ok(t) => math_type(expr@) == Ok::<TypeView, ParserErrView>(t@),
                Err(e) => math_type(expr@) == Err::<TypeView, ParserErrView>(e@),
            },
        decreases expr,
    {
        match expr {
            MathExpr::Literal(literal) => Ok(Type::Primitive(literal.prim_type())),
            MathExpr::Identifier(ident) => Ok(TypeEnvironment::type_ident(ident)),
            MathExpr::BinaryOp(lhs, rhs, _) => {
                let lhs_type = TypeEnvironment::type_math_expr(&**lhs)?;
                let rhs_type = TypeEnvironment::type_math_expr(&**rhs)?;
                if lhs_type == rhs_type {
                    Ok(lhs_type)
                } else if lhs_type < rhs_type {
                    Ok(rhs_type)
                } else if lhs_type > rhs_type {
                    Ok(lhs_type)
                } else {
                    Err(ParserErr::UnmatchedTypes { predicted: lhs_type, declared: rhs_type })
                }
            },
            MathExpr::Negate(inner) => TypeEnvironment::type_math_expr(&**inner),
            MathExpr::FuncCall(ident, _) => Ok(TypeEnvironment::type_ident(ident)),
        }
    }
}

} // verus!
