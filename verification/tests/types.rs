use std::cmp::Ordering;
use std::rc::Rc;

use props_parser::analysis::{PropsSemanticAnalyzer, PropsTypeChecker};
use props_parser::error::ParserErr;
use props_parser::nodes::{AstNode, Expression, Identifier, MathExpr, MathOp};
use props_parser::types::typer::{types_agree, PropsTyper};
use props_parser::types::{Number, PrimitiveType, Type, TypeEnvironment};
use props_parser::util::Access;

fn prim(p: PrimitiveType) -> Type {
    Type::Primitive(p)
}

fn named(text: &str) -> Type {
    Type::Defined(text.to_string())
}

fn plain(text: &str) -> Identifier {
    Identifier::Identifier(text.to_string(), Type::Undefined)
}

fn declared(text: &str, t: Type) -> Identifier {
    Identifier::Identifier(text.to_string(), t)
}

fn lit(n: Number) -> MathExpr {
    MathExpr::Literal(n)
}

fn typed_ref(text: &str, t: Type) -> MathExpr {
    MathExpr::Identifier(declared(text, t))
}

fn bin(lhs: MathExpr, rhs: MathExpr) -> Expression {
    Expression::MathExpr(MathExpr::BinaryOp(Box::new(lhs), Box::new(rhs), MathOp::Add))
}

const ALL: [PrimitiveType; 11] = [
    PrimitiveType::U8,
    PrimitiveType::U16,
    PrimitiveType::U32,
    PrimitiveType::U64,
    PrimitiveType::I8,
    PrimitiveType::I16,
    PrimitiveType::I32,
    PrimitiveType::I64,
    PrimitiveType::F32,
    PrimitiveType::F64,
    PrimitiveType::Str,
];

#[test]
fn primitive_types_are_ordered_by_width() {
    assert_eq!(PrimitiveType::U8.partial_cmp(&PrimitiveType::I16), Some(Ordering::Less));
    assert_eq!(PrimitiveType::I64.partial_cmp(&PrimitiveType::F32), Some(Ordering::Greater));
    assert_eq!(PrimitiveType::U32.partial_cmp(&PrimitiveType::F32), Some(Ordering::Equal));
    assert_eq!(PrimitiveType::I8.partial_cmp(&PrimitiveType::U8), Some(Ordering::Equal));
    assert_eq!(PrimitiveType::F64.partial_cmp(&PrimitiveType::U64), Some(Ordering::Equal));
}

#[test]
fn primitive_widths() {
    let widths = [1, 2, 4, 8, 1, 2, 4, 8, 4, 8];
    for (p, w) in ALL.iter().zip(widths) {
        assert_eq!(p.byte_width(), Some(w));
    }
    assert_eq!(PrimitiveType::Str.byte_width(), None);
}

#[test]
fn string_type_is_incomparable_with_every_type() {
    for p in ALL {
        assert_eq!(PrimitiveType::Str.partial_cmp(&p), None);
        assert_eq!(p.partial_cmp(&PrimitiveType::Str), None);
    }
}

#[test]
fn width_order_is_antisymmetric() {
    for a in ALL {
        for b in ALL {
            let forth = a.partial_cmp(&b);
            let back = b.partial_cmp(&a);
            assert_eq!(forth.map(Ordering::reverse), back);
        }
    }
}

#[test]
fn only_primitive_types_are_ordered() {
    assert_eq!(
        prim(PrimitiveType::U8).partial_cmp(&prim(PrimitiveType::U16)),
        Some(Ordering::Less)
    );
    assert_eq!(named("I32").partial_cmp(&prim(PrimitiveType::U16)), None);
    assert_eq!(Type::Undefined.partial_cmp(&Type::Undefined), None);
    assert!(prim(PrimitiveType::I16).narrower_than(&prim(PrimitiveType::I32)));
    assert!(!prim(PrimitiveType::I32).narrower_than(&prim(PrimitiveType::I32)));
    assert!(!prim(PrimitiveType::I32).narrower_than(&prim(PrimitiveType::F32)));
    assert!(!prim(PrimitiveType::I64).narrower_than(&prim(PrimitiveType::I32)));
}

#[test]
fn primitive_types_are_found_by_name() {
    let names = ["U8", "U16", "U32", "U64", "I8", "I16", "I32", "I64", "F32", "F64", "Str"];
    for (p, n) in ALL.iter().zip(names) {
        assert_eq!(PrimitiveType::from_name(n), Some(*p));
        assert_eq!(p.to_name(), n);
        assert_eq!(format!("{:?}", p), n);
    }
    for n in ["", "U", "u8", "U7", "U128", "F8", "F16", "S8", "str", "Int", "I32 ", "Strs"] {
        assert_eq!(PrimitiveType::from_name(n), None, "{:?}", n);
    }
}

#[test]
fn type_from_a_name() {
    assert_eq!(Type::from("I32".to_string()), prim(PrimitiveType::I32));
    assert_eq!(Type::from("Str".to_string()), prim(PrimitiveType::Str));
    assert_eq!(Type::from("Point".to_string()), named("Point"));
}

#[test]
fn resolve_replaces_primitive_names_everywhere() {
    let t = Type::Compound(vec![
        named("U8"),
        named("Point"),
        Type::Function(Box::new(named("F64"))),
        Type::Undefined,
    ]);
    assert_eq!(
        t.resolve(),
        Type::Compound(vec![
            prim(PrimitiveType::U8),
            named("Point"),
            Type::Function(Box::new(prim(PrimitiveType::F64))),
            Type::Undefined,
        ])
    );
}

#[test]
fn equality_and_clone_follow_the_structure() {
    let t = Type::Compound(vec![named("A"), Type::Function(Box::new(prim(PrimitiveType::I8)))]);
    let copy = t.clone();
    assert_eq!(copy, t);
    assert!(t == copy);
    assert!(t != Type::Compound(vec![named("A")]));
    assert!(
        t != Type::Compound(vec![named("A"), Type::Function(Box::new(prim(PrimitiveType::U8)))])
    );
    assert!(t != Type::Compound(vec![named("A"), Type::Function(Box::new(Type::Undefined))]));
    assert!(named("A") != named("B"));
    assert!(named("A") == named("A"));
    assert!(Type::Undefined != named("A"));
    assert!(Type::Undefined == Type::Undefined);
    assert!(prim(PrimitiveType::I32) != prim(PrimitiveType::U32));
}

#[test]
fn types_compare_by_width() {
    assert!(prim(PrimitiveType::I16) < prim(PrimitiveType::I32));
    assert!(prim(PrimitiveType::F64) > prim(PrimitiveType::U8));
    assert!(!(prim(PrimitiveType::I32) < prim(PrimitiveType::U32)));
    assert!(!(prim(PrimitiveType::I32) > prim(PrimitiveType::U32)));
    assert!(!(prim(PrimitiveType::Str) < prim(PrimitiveType::U32)));
    assert!(!(named("A") < named("B")));
    assert!(PrimitiveType::U8 < PrimitiveType::U16);
}

#[test]
fn agreement_after_widening() {
    assert!(types_agree(&prim(PrimitiveType::I16), &named("I32")));
    assert!(types_agree(&prim(PrimitiveType::I16), &prim(PrimitiveType::I16)));
    assert!(types_agree(&prim(PrimitiveType::I16), &named("F64")));
    assert!(types_agree(&named("Point"), &named("Point")));
    assert!(!types_agree(&prim(PrimitiveType::I32), &named("I8")));
    assert!(!types_agree(&prim(PrimitiveType::I32), &named("U32")));
    assert!(!types_agree(&prim(PrimitiveType::I16), &named("Str")));
    assert!(!types_agree(&prim(PrimitiveType::Str), &named("I64")));
    assert!(!types_agree(&prim(PrimitiveType::I16), &named("Point")));
    assert!(!types_agree(&Type::Undefined, &named("I32")));
}

#[test]
fn environment_keeps_the_last_assignment() {
    let mut env = TypeEnvironment::new();
    assert_eq!(env.get("a"), None);
    env.assign("a".to_string(), prim(PrimitiveType::I16));
    env.assign("b".to_string(), named("Point"));
    assert_eq!(env.get("a"), Some(&prim(PrimitiveType::I16)));
    assert_eq!(env.get("b"), Some(&named("Point")));
    env.assign("a".to_string(), prim(PrimitiveType::Str));
    assert_eq!(env.get("a"), Some(&prim(PrimitiveType::Str)));
    assert_eq!(env.get("b"), Some(&named("Point")));
    assert_eq!(env.get("c"), None);
    assert_eq!(env.get(""), None);
    env.clear();
    assert_eq!(env.get("a"), None);
    assert_eq!(env.get("b"), None);
}

#[test]
fn predicted_type_of_literals() {
    assert_eq!(
        TypeEnvironment::predict_type(&Expression::MathExpr(lit(Number::U8(32)))),
        Ok(prim(PrimitiveType::I16))
    );
    assert_eq!(
        TypeEnvironment::predict_type(&Expression::MathExpr(lit(Number::U64(1)))),
        Ok(prim(PrimitiveType::U64))
    );
    assert_eq!(
        TypeEnvironment::predict_type(&Expression::StrLiteral("hi".to_string())),
        Ok(prim(PrimitiveType::Str))
    );
}

#[test]
fn predicted_type_of_a_binary_operation_is_the_wider_operand() {
    assert_eq!(
        TypeEnvironment::predict_type(&bin(lit(Number::U8(1)), lit(Number::U16(300)))),
        Ok(prim(PrimitiveType::I32))
    );
    assert_eq!(
        TypeEnvironment::predict_type(&bin(lit(Number::U32(70000)), lit(Number::U8(1)))),
        Ok(prim(PrimitiveType::I64))
    );
    assert_eq!(
        TypeEnvironment::predict_type(&bin(lit(Number::U8(1)), lit(Number::U8(2)))),
        Ok(prim(PrimitiveType::I16))
    );
}

#[test]
fn incomparable_operands_are_a_mismatch() {
    assert_eq!(
        TypeEnvironment::predict_type(&bin(
            lit(Number::U8(1)),
            typed_ref("s", prim(PrimitiveType::Str))
        )),
        Err(ParserErr::UnmatchedTypes {
            predicted: prim(PrimitiveType::I16),
            declared: prim(PrimitiveType::Str)
        })
    );
    assert_eq!(
        TypeEnvironment::predict_type(&bin(
            lit(Number::I32(1)),
            lit(Number::F32("1.0".to_string()))
        )),
        Err(ParserErr::UnmatchedTypes {
            predicted: prim(PrimitiveType::I32),
            declared: prim(PrimitiveType::F32)
        })
    );
    assert_eq!(
        TypeEnvironment::predict_type(&bin(
            MathExpr::Identifier(plain("a")),
            lit(Number::U8(1))
        )),
        Err(ParserErr::UnmatchedTypes {
            predicted: Type::Undefined,
            declared: prim(PrimitiveType::I16)
        })
    );
}

#[test]
fn predicted_type_of_other_expressions() {
    assert_eq!(
        TypeEnvironment::predict_type(&Expression::MathExpr(MathExpr::Negate(Box::new(lit(
            Number::U16(300)
        ))))),
        Ok(prim(PrimitiveType::I32))
    );
    assert_eq!(
        TypeEnvironment::predict_type(&Expression::MathExpr(MathExpr::FuncCall(
            declared("f", named("Point")),
            vec![]
        ))),
        Ok(named("Point"))
    );
    assert_eq!(
        TypeEnvironment::predict_type(&Expression::MathExpr(MathExpr::Identifier(
            Identifier::Accessor(Box::new(plain("a")), Box::new(plain("b")))
        ))),
        Ok(Type::Undefined)
    );
    assert_eq!(
        TypeEnvironment::predict_type(&Expression::MathExpr(MathExpr::Identifier(
            Identifier::Compound(vec![declared("a", named("A")), plain("b")])
        ))),
        Ok(Type::Compound(vec![named("A"), Type::Undefined]))
    );
    assert_eq!(
        TypeEnvironment::predict_type(&Expression::Compound(vec![
            Expression::MathExpr(lit(Number::U8(1))),
            Expression::StrLiteral("s".to_string()),
        ])),
        Ok(Type::Compound(vec![prim(PrimitiveType::I16), prim(PrimitiveType::Str)]))
    );
    assert_eq!(
        TypeEnvironment::predict_type(&Expression::FuncLiteral {
            params: vec![],
            statements: vec![],
            return_type: named("Point"),
        }),
        Ok(Type::Function(Box::new(named("Point"))))
    );
}

#[test]
fn compound_reports_its_first_member_without_a_type() {
    let bad_one = bin(lit(Number::U8(1)), typed_ref("s", prim(PrimitiveType::Str)));
    let bad_two = bin(lit(Number::U64(1)), typed_ref("t", named("T")));
    assert_eq!(
        TypeEnvironment::predict_type(&Expression::Compound(vec![
            Expression::MathExpr(lit(Number::U8(1))),
            bad_one,
            bad_two,
        ])),
        Err(ParserErr::UnmatchedTypes {
            predicted: prim(PrimitiveType::I16),
            declared: prim(PrimitiveType::Str)
        })
    );
}

fn run(ast: Vec<AstNode>) -> (TypeEnvironment, Vec<ParserErr>) {
    let mut env = TypeEnvironment::new();
    let mut errs = Vec::new();
    PropsTyper.process(&ast, &mut env, &mut errs);
    (env, errs)
}

#[test]
fn undeclared_name_takes_the_predicted_type() {
    let (env, errs) = run(vec![AstNode::Assignment(
        plain("x"),
        Expression::MathExpr(lit(Number::U8(1))),
    )]);
    assert!(errs.is_empty());
    assert_eq!(env.get("x"), Some(&prim(PrimitiveType::I16)));
}

#[test]
fn declared_name_keeps_its_type_and_agrees_after_widening() {
    let (env, errs) = run(vec![AstNode::Assignment(
        declared("number", named("I32")),
        Expression::MathExpr(lit(Number::U8(32))),
    )]);
    assert!(errs.is_empty());
    assert_eq!(env.get("number"), Some(&named("I32")));
}

#[test]
fn declared_name_keeps_its_type_where_the_value_does_not_fit() {
    let (env, errs) = run(vec![AstNode::Assignment(
        declared("small", named("I8")),
        Expression::MathExpr(lit(Number::U16(300))),
    )]);
    assert_eq!(
        errs,
        vec![ParserErr::UnmatchedTypes {
            predicted: prim(PrimitiveType::I32),
            declared: named("I8")
        }]
    );
    assert_eq!(env.get("small"), Some(&named("I8")));
}

#[test]
fn only_assignments_are_typed_and_diagnostics_keep_their_order() {
    let (env, errs) = run(vec![
        AstNode::Return(Expression::StrLiteral("r".to_string())),
        AstNode::Assignment(declared("a", named("Str")), Expression::MathExpr(lit(Number::U8(1)))),
        AstNode::ImpFuncCall(plain("print"), vec![]),
        AstNode::Assignment(plain("b"), bin(lit(Number::U8(1)), typed_ref("s", named("S")))),
        AstNode::Assignment(declared("c", named("U8")), Expression::StrLiteral("s".to_string())),
        AstNode::Assignment(plain("a"), Expression::StrLiteral("again".to_string())),
    ]);
    assert_eq!(
        errs,
        vec![
            ParserErr::UnmatchedTypes {
                predicted: prim(PrimitiveType::I16),
                declared: named("Str")
            },
            ParserErr::UnmatchedTypes { predicted: prim(PrimitiveType::I16), declared: named("S") },
            ParserErr::UnmatchedTypes {
                predicted: prim(PrimitiveType::Str),
                declared: named("U8")
            },
        ]
    );
    assert_eq!(env.get("a"), Some(&prim(PrimitiveType::Str)));
    assert_eq!(env.get("b"), None);
    assert_eq!(env.get("c"), Some(&named("U8")));
    assert_eq!(env.get("print"), None);
}

#[test]
fn compound_target_takes_the_members_of_a_compound_value() {
    let (env, errs) = run(vec![AstNode::Assignment(
        Identifier::Compound(vec![
            plain("a"),
            declared("b", named("Str")),
            Identifier::Accessor(Box::new(plain("o")), Box::new(plain("f"))),
        ]),
        Expression::Compound(vec![
            Expression::MathExpr(lit(Number::U8(1))),
            Expression::MathExpr(lit(Number::U8(2))),
            Expression::StrLiteral("s".to_string()),
        ]),
    )]);
    assert_eq!(
        errs,
        vec![ParserErr::UnmatchedTypes {
            predicted: prim(PrimitiveType::I16),
            declared: named("Str")
        }]
    );
    assert_eq!(env.get("a"), Some(&prim(PrimitiveType::I16)));
    assert_eq!(env.get("b"), Some(&named("Str")));
    assert_eq!(env.get("o"), None);
    assert_eq!(env.get("f"), None);
}

#[test]
fn compound_target_ignores_a_value_of_another_shape() {
    let target = Identifier::Compound(vec![plain("a"), declared("b", named("Str"))]);
    let (env, errs) = run(vec![
        AstNode::Assignment(
            Identifier::Compound(vec![plain("a"), declared("b", named("Str"))]),
            Expression::MathExpr(lit(Number::U8(1))),
        ),
        AstNode::Assignment(
            target,
            Expression::Compound(vec![
                Expression::MathExpr(lit(Number::U8(1))),
                Expression::MathExpr(lit(Number::U8(2))),
                Expression::MathExpr(lit(Number::U8(3))),
            ]),
        ),
    ]);
    assert!(errs.is_empty());
    assert_eq!(env.get("a"), None);
    assert_eq!(env.get("b"), None);
}

#[test]
fn accessor_target_names_no_entry() {
    let (env, errs) = run(vec![AstNode::Assignment(
        Identifier::Accessor(Box::new(plain("o")), Box::new(plain("f"))),
        Expression::MathExpr(lit(Number::U8(1))),
    )]);
    assert!(errs.is_empty());
    assert_eq!(env.get("o"), None);
    assert_eq!(env.get("f"), None);
}

#[test]
fn process_appends_to_the_diagnostics_it_is_given() {
    let mut env = TypeEnvironment::new();
    env.assign("old".to_string(), named("Old"));
    let mut errs = vec![ParserErr::UnexpectedEOF];
    PropsTyper.process(
        &vec![AstNode::Assignment(
            declared("x", named("Str")),
            Expression::MathExpr(lit(Number::U8(1))),
        )],
        &mut env,
        &mut errs,
    );
    assert_eq!(errs.len(), 2);
    assert_eq!(errs[0], ParserErr::UnexpectedEOF);
    assert_eq!(env.get("old"), Some(&named("Old")));
    assert_eq!(env.get("x"), Some(&named("Str")));
}

#[test]
fn type_checker_accepts_every_program() {
    let ast = vec![AstNode::Return(Expression::StrLiteral("r".to_string()))];
    assert!(PropsTypeChecker.analyze(&ast).is_empty());
    assert!(PropsTypeChecker.analyze(&vec![]).is_empty());
}

#[test]
fn access_maps_over_either_holder() {
    let owned = Access::owned(41);
    let shared = Access::shared(Rc::new(41));
    assert_eq!(owned.map(|v| v + 1), 42);
    assert_eq!(shared.map(|v| v + 1), 42);
    let text = Access::Owned("abc".to_string());
    assert_eq!(text.map(|s| s.len()), 3);
    assert_eq!(Access::Rc(Rc::new("abcd".to_string())).map(|s| s.len()), 4);
}

#[test]
fn access_from_either_holder() {
    let owned: Access<u32> = Access::from(7);
    let shared: Access<u32> = Access::from(Rc::new(7));
    let count = Rc::new(9);
    let borrowed: Access<u32> = Access::from(&count);
    assert_eq!(borrowed, Access::Rc(Rc::new(9)));
    assert_eq!(Rc::strong_count(&count), 2);
    assert_eq!(borrowed.clone(), borrowed);
    assert!(matches!(owned, Access::Owned(7)));
    assert!(matches!(shared, Access::Rc(_)));
    assert_eq!(shared.map(|v| *v), 7);
}

#[test]
fn access_compares_the_values() {
    let small = Access::owned(1);
    let large = Access::shared(Rc::new(2));
    assert_eq!(small.partial_cmp(&large), Some(Ordering::Less));
    assert_eq!(large.partial_cmp(&small), Some(Ordering::Greater));
    assert_eq!(large.partial_cmp(&Access::owned(2)), Some(Ordering::Equal));
    assert_eq!(Access::shared(Rc::new(1)).partial_cmp(&Access::shared(Rc::new(1))), Some(Ordering::Equal));
}
