//! The type pass over the statements of a source text.

use vstd::prelude::*;
use crate::error::{error_views, lemma_error_views_push, ParserErr, ParserErrView};
use crate::nodes::{
    identifier_views, node_views, AstNode, AstNodeView, Expression, Identifier,
    IdentifierView,
};
use crate::types::environment::predicted_type;
use crate::types::{type_views, Type, TypeEnvironment, TypeView};

verus! {

/// Whether an expression of the type `predicted` may be assigned to an
/// identifier declared as `declared`: with the names of primitive types
/// resolved, the two are the same type, or the predicted type widens to the
/// declared one.
pub open spec fn agrees(predicted: TypeView, declared: TypeView) -> bool {
    predicted.resolved() == declared.resolved() || predicted.resolved().narrower_than(
        declared.resolved(),
    )
}

/// The environment and the diagnostics after a value of the type
/// `predicted` was assigned to `ident`.
///
/// A name without a declared type takes the predicted type. A name with a
/// declared type keeps it, and a diagnostic is added where the predicted
/// type does not agree with it. The members of a compound take the members
/// of a compound type of their number, one by one, and nothing happens
/// where the predicted type is no such compound. An accessor names no entry
/// of the environment.
pub open spec fn bound(
    ident: IdentifierView,
    predicted: TypeView,
    env: Map<Seq<char>, TypeView>,
    errs: Seq<ParserErrView>,
) -> (Map<Seq<char>, TypeView>, Seq<ParserErrView>)
    decreases ident, 0nat,
{
    match ident {
        IdentifierView::Identifier(name, declared) => if declared is Undefined {
            (env.insert(name, predicted), errs)
        } else if agrees(predicted, declared) {
            (env.insert(name, declared), errs)
        } else {
            (
                env.insert(name, declared),
                errs.push(ParserErrView::UnmatchedTypes { predicted, declared }),
            )
        },
        IdentifierView::Accessor(_, _) => (env, errs),
        IdentifierView::Compound(members) => match predicted {
            TypeView::Compound(types) => if types.len() == members.len() {
                bound_each(members, types, 0, env, errs)
            } else {
                (env, errs)
            },
            _ => (env, errs),
        },
    }
}

/// The environment and the diagnostics after the members from `i` on took
/// the types from `i` on.
pub open spec fn bound_each(
    members: Seq<IdentifierView>,
    types: Seq<TypeView>,
    i: int,
    env: Map<Seq<char>, TypeView>,
    errs: Seq<ParserErrView>,
) -> (Map<Seq<char>, TypeView>, Seq<ParserErrView>)
    decreases members, members.len() - i,
{
    if 0 <= i < members.len() {
        let (next_env, next_errs) = bound(members[i], types[i], env, errs);
        bound_each(members, types, i + 1, next_env, next_errs)
    } else {
        (env, errs)
    }
}

/// The environment and the diagnostics after one statement: an assignment
/// binds its target to the predicted type of its expression, or leaves the
/// diagnostic of the prediction; any other statement changes nothing.
pub open spec fn typed(
    node: AstNodeView,
    env: Map<Seq<char>, TypeView>,
    errs: Seq<ParserErrView>,
) -> (Map<Seq<char>, TypeView>, Seq<ParserErrView>) {
    match node {
        AstNodeView::Assignment(ident, expr) => match predicted_type(expr) {
            Ok(predicted) => bound(ident, predicted, env, errs),
            Err(e) => (env, errs.push(e)),
        },
        _ => (env, errs),
    }
}

/// The environment and the diagnostics after the statements from `i` on, in
/// their order.
pub open spec fn typed_from(
    nodes: Seq<AstNodeView>,
    i: int,
    env: Map<Seq<char>, TypeView>,
    errs: Seq<ParserErrView>,
) -> (Map<Seq<char>, TypeView>, Seq<ParserErrView>)
    decreases nodes.len() - i,
{
    if 0 <= i < nodes.len() {
        let (next_env, next_errs) = typed(nodes[i], env, errs);
        typed_from(nodes, i + 1, next_env, next_errs)
    } else {
        (env, errs)
    }
}

/// Whether an expression of the type `predicted` may be assigned to an
/// identifier declared as `declared`.
pub fn types_agree(predicted: &Type, declared: &Type) -> (b: bool)
    ensures
        b == agrees(predicted@, declared@),
{
    let p = predicted.resolve();
    let d = declared.resolve();
    p == d || p < d
}

/// The pass that fills the type environment.
pub struct PropsTyper;

impl PropsTyper {
    /// Types the assignments among the statements, in order: fills the
    /// environment and appends the diagnostics.
    pub fn process(
        &self,
        ast: &Vec<AstNode>,
        type_environment: &mut TypeEnvironment,
        errs: &mut Vec<ParserErr>,
    )
        ensures
            (final(type_environment)@, error_views(final(errs)@)) == typed_from(
                node_views(ast@),
                0,
                old(type_environment)@,
                error_views(old(errs)@),
            ),
    {
        let mut i: usize = 0;
        while i < ast.len()
            invariant
                i <= ast.len(),
                typed_from(node_views(ast@), i as int, type_environment@, error_views(errs@))
                    == typed_from(
                    node_views(ast@),
                    0,
                    old(type_environment)@,
                    error_views(old(errs)@),
                ),
            decreases ast.len() - i,
        {
            assert(node_views(ast@)[i as int] == ast@[i as int]@);
            if let AstNode::Assignment(ident, expr) = &ast[i] {
                self.assign_type(ident, type_environment, expr, errs);
            }
            i = i + 1;
        }
    }

    /// Types one assignment.
    fn assign_type(
        &self,
        ident: &Identifier,
        type_environment: &mut TypeEnvironment,
        expr: &Expression,
        errs: &mut Vec<ParserErr>,
    )
        ensures
            (final(type_environment)@, error_views(final(errs)@)) == typed(
                AstNodeView::Assignment(ident@, expr@),
                old(type_environment)@,
                error_views(old(errs)@),
            ),
    {
        match TypeEnvironment::predict_type(expr) {
            Ok(expr_type) => {
                self.bind(ident, &expr_type, type_environment, errs);
            },
            Err(e) => {
                proof {
                    lemma_error_views_push(errs@, e);
                }
                errs.push(e);
            },
        }
    }

    /// Assigns a value of the type `predicted` to `ident`.
    fn bind(
        &self,
        ident: &Identifier,
        predicted: &Type,
        type_environment: &mut TypeEnvironment,
        errs: &mut Vec<ParserErr>,
    )
        ensures
            (final(type_environment)@, error_views(final(errs)@)) == bound(
                ident@,
                predicted@,
                old(type_environment)@,
                error_views(old(errs)@),
            ),
        decreases ident,
    {
        match ident {
            Identifier::Identifier(name, declared) => match declared {
                Type::Undefined => {
                    type_environment.assign(name.clone(), predicted.clone());
                },
                _ => {
                    type_environment.assign(name.clone(), declared.clone());
                    if !types_agree(predicted, declared) {
                        let err = ParserErr::UnmatchedTypes {
                            predicted: predicted.clone(),
                            declared: declared.clone(),
                        };
                        proof {
                            lemma_error_views_push(errs@, err);
                        }
                        errs.push(err);
                    }
                },
            },
            Identifier::Accessor(_, _) => {},
            Identifier::Compound(idents) => {
                assert(ident@ == IdentifierView::Compound(identifier_views(idents@)));
                if let Type::Compound(types) = predicted {
                    assert(predicted@ == TypeView::Compound(type_views(types@)));
                    if types.len() == idents.len() {
                        let ghost members = identifier_views(idents@);
                        let ghost parts = type_views(types@);
                        let mut k: usize = 0;
                        while k < idents.len()
                            invariant
                                k <= idents.len(),
                                types.len() == idents.len(),
                                ident is Compound,
                                ident->Compound_0 == idents,
                                members == identifier_views(idents@),
                                parts == type_views(types@),
                                bound_each(
                                    members,
                                    parts,
                                    k as int,
                                    type_environment@,
                                    error_views(errs@),
                                ) == bound_each(
                                    members,
                                    parts,
                                    0,
                                    old(type_environment)@,
                                    error_views(old(errs)@),
                                ),
                            decreases idents.len() - k,
                        {
                            assert(members[k as int] == idents@[k as int]@);
                            assert(parts[k as int] == types@[k as int]@);
                            self.bind(&idents[k], &types[k], type_environment, errs);
                            k = k + 1;
                        }
                    }
                }
            },
        }
    }
}

/// Whether `longer` begins with `errs`.
pub open spec fn extends(longer: Seq<ParserErrView>, errs: Seq<ParserErrView>) -> bool {
    errs.len() <= longer.len() && longer.take(errs.len() as int) == errs
}

/// A declared type is the one that is stored, whatever the expression is
/// predicted to be; a diagnostic is added exactly where the two do not
/// agree.
pub proof fn law_declared_type_is_stored(
    name: Seq<char>,
    declared: TypeView,
    predicted: TypeView,
    env: Map<Seq<char>, TypeView>,
    errs: Seq<ParserErrView>,
)
    requires
        !(declared is Undefined),
    ensures
        ({
            let (after, found) = bound(
                IdentifierView::Identifier(name, declared),
                predicted,
                env,
                errs,
            );
            &&& after == env.insert(name, declared)
            &&& agrees(predicted, declared) ==> found == errs
            &&& !agrees(predicted, declared) ==> found == errs.push(
                ParserErrView::UnmatchedTypes { predicted, declared },
            )
        }),
{
}

/// A name without a declared type takes the predicted type, without a
/// diagnostic.
pub proof fn law_predicted_type_is_stored(
    name: Seq<char>,
    predicted: TypeView,
    env: Map<Seq<char>, TypeView>,
    errs: Seq<ParserErrView>,
)
    ensures
        bound(IdentifierView::Identifier(name, TypeView::Undefined), predicted, env, errs) == (
            env.insert(name, predicted),
            errs,
        ),
{
}

/// Binding adds diagnostics behind those that are there.
pub proof fn lemma_bound_appends(
    ident: IdentifierView,
    predicted: TypeView,
    env: Map<Seq<char>, TypeView>,
    errs: Seq<ParserErrView>,
)
    ensures
        extends(bound(ident, predicted, env, errs).1, errs),
    decreases ident, 0nat,
{
    match ident {
        IdentifierView::Identifier(name, declared) => {
            let added = errs.push(ParserErrView::UnmatchedTypes { predicted, declared });
            assert(added.take(errs.len() as int) =~= errs);
            assert(errs.take(errs.len() as int) =~= errs);
        },
        IdentifierView::Accessor(_, _) => {
            assert(errs.take(errs.len() as int) =~= errs);
        },
        IdentifierView::Compound(members) => {
            assert(errs.take(errs.len() as int) =~= errs);
            match predicted {
                TypeView::Compound(types) => {
                    if types.len() == members.len() {
                        lemma_bound_each_appends(members, types, 0, env, errs);
                    }
                },
                _ => {},
            }
        },
    }
}

proof fn lemma_bound_each_appends(
    members: Seq<IdentifierView>,
    types: Seq<TypeView>,
    i: int,
    env: Map<Seq<char>, TypeView>,
    errs: Seq<ParserErrView>,
)
    ensures
        extends(bound_each(members, types, i, env, errs).1, errs),
    decreases members, members.len() - i,
{
    if 0 <= i < members.len() {
        let (next_env, next_errs) = bound(members[i], types[i], env, errs);
        lemma_bound_appends(members[i], types[i], env, errs);
        lemma_bound_each_appends(members, types, i + 1, next_env, next_errs);
        let last = bound_each(members, types, i + 1, next_env, next_errs).1;
        assert(last.take(errs.len() as int) =~= next_errs.take(errs.len() as int));
    } else {
        assert(errs.take(errs.len() as int) =~= errs);
    }
}

/// The type pass adds its diagnostics behind those that are there, in the
/// order of the statements.
pub proof fn lemma_typed_from_appends(
    nodes: Seq<AstNodeView>,
    i: int,
    env: Map<Seq<char>, TypeView>,
    errs: Seq<ParserErrView>,
)
    ensures
        extends(typed_from(nodes, i, env, errs).1, errs),
    decreases nodes.len() - i,
{
    if 0 <= i < nodes.len() {
        let (next_env, next_errs) = typed(nodes[i], env, errs);
        match nodes[i] {
            AstNodeView::Assignment(ident, expr) => match predicted_type(expr) {
                Ok(predicted) => {
                    lemma_bound_appends(ident, predicted, env, errs);
                },
                Err(e) => {
                    assert(errs.push(e).take(errs.len() as int) =~= errs);
                },
            },
            _ => {
                assert(errs.take(errs.len() as int) =~= errs);
            },
        }
        lemma_typed_from_appends(nodes, i + 1, next_env, next_errs);
        let last = typed_from(nodes, i + 1, next_env, next_errs).1;
        assert(last.take(errs.len() as int) =~= next_errs.take(errs.len() as int));
    } else {
        assert(errs.take(errs.len() as int) =~= errs);
    }
}

} // verus!
