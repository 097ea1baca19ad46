use props_parser::error::ParserErr;
use props_parser::nodes::{AstNode, Expression, Identifier, MathExpr};
use props_parser::parser::PropsParser;
use props_parser::pipeline::PropsPipeline;
use props_parser::tokens::Token;
use props_parser::types::{Number, PrimitiveType, Type};

fn prim(p: PrimitiveType) -> Type {
    Type::Primitive(p)
}

fn named(text: &str) -> Type {
    Type::Defined(text.to_string())
}

#[test]
fn typed_assignment_agrees_after_widening() {
    let mut pipeline = PropsPipeline::default();
    let (nodes, errs) = pipeline.parse("number: I32 = 32".to_string());
    assert_eq!(
        nodes,
        vec![AstNode::Assignment(
            Identifier::Identifier("number".to_string(), named("I32")),
            Expression::MathExpr(MathExpr::Literal(Number::U8(32))),
        )]
    );
    assert!(errs.is_empty());
    assert_eq!(pipeline.type_environment().get("number"), Some(&named("I32")));
}

#[test]
fn typed_assignment_that_does_not_fit_is_a_mismatch() {
    let mut pipeline = PropsPipeline::new(PropsParser::new());
    let (nodes, errs) = pipeline.parse("small: I8 = 300".to_string());
    assert_eq!(nodes.len(), 1);
    assert_eq!(
        errs,
        vec![ParserErr::UnmatchedTypes {
            predicted: prim(PrimitiveType::I32),
            declared: named("I8")
        }]
    );
    assert_eq!(pipeline.type_environment().get("small"), Some(&named("I8")));
}

#[test]
fn parser_diagnostics_come_before_type_diagnostics() {
    let mut pipeline = PropsPipeline::default();
    let (nodes, errs) = pipeline.parse("s: I32 = \"text\"\n) \nt = 1".to_string());
    assert_eq!(nodes.len(), 2);
    assert_eq!(
        errs,
        vec![
            ParserErr::UnexpectedToken { line: 2, column: 0, token: Token::ParenthClose },
            ParserErr::UnmatchedTypes {
                predicted: prim(PrimitiveType::Str),
                declared: named("I32")
            },
        ]
    );
}

#[test]
fn environment_is_emptied_before_every_source() {
    let mut pipeline = PropsPipeline::default();
    pipeline.parse("a = 1\nb = \"s\"".to_string());
    assert_eq!(pipeline.type_environment().get("a"), Some(&prim(PrimitiveType::I16)));
    assert_eq!(pipeline.type_environment().get("b"), Some(&prim(PrimitiveType::Str)));
    pipeline.parse("c = 70000".to_string());
    assert_eq!(pipeline.type_environment().get("a"), None);
    assert_eq!(pipeline.type_environment().get("b"), None);
    assert_eq!(pipeline.type_environment().get("c"), Some(&prim(PrimitiveType::I64)));
}

#[test]
fn lines_are_counted_anew_for_every_source() {
    let mut pipeline = PropsPipeline::default();
    pipeline.parse("a = 1\nb = 2\nc = 3".to_string());
    let (_, errs) = pipeline.parse("= 1".to_string());
    assert_eq!(
        errs[0],
        ParserErr::UnexpectedToken { line: 1, column: 0, token: Token::Assignment }
    );
    assert_eq!(pipeline.source(), &vec!["= 1".to_string()]);
}

#[test]
fn multi_target_assignment_types_every_target() {
    let mut pipeline = PropsPipeline::default();
    let (nodes, errs) = pipeline.parse("a, b = 1, \"two\"".to_string());
    assert_eq!(nodes.len(), 1);
    assert!(errs.is_empty());
    assert_eq!(pipeline.type_environment().get("a"), Some(&prim(PrimitiveType::I16)));
    assert_eq!(pipeline.type_environment().get("b"), Some(&prim(PrimitiveType::Str)));
}

#[test]
fn last_assignment_wins() {
    let mut pipeline = PropsPipeline::default();
    pipeline.parse("a = 1\na = \"s\"".to_string());
    assert_eq!(pipeline.type_environment().get("a"), Some(&prim(PrimitiveType::Str)));
}

#[test]
fn annotated_accessor_leaves_exactly_one_diagnostic() {
    let mut pipeline = PropsPipeline::default();
    let (nodes, errs) = pipeline.parse("obj.field: I32 = 32".to_string());
    assert_eq!(nodes.len(), 2);
    assert_eq!(
        errs,
        vec![ParserErr::UnexpectedToken { line: 1, column: 9, token: Token::TypeAnnotator }]
    );
}

#[test]
fn three_targets_take_three_values() {
    let mut pipeline = PropsPipeline::default();
    let (nodes, errs) = pipeline.parse("a, b, c = 1, \"two\", 70000".to_string());
    assert_eq!(nodes.len(), 1);
    assert!(errs.is_empty());
    assert_eq!(pipeline.type_environment().get("a"), Some(&prim(PrimitiveType::I16)));
    assert_eq!(pipeline.type_environment().get("b"), Some(&prim(PrimitiveType::Str)));
    assert_eq!(pipeline.type_environment().get("c"), Some(&prim(PrimitiveType::I64)));
}
