use props_parser::nodes::Identifier;
use props_parser::parser::PropsParser;
use props_parser::types::Type;

fn parser_for(source: &str) -> PropsParser {
    let mut parser = PropsParser::new();
    parser.init(source.to_string());
    parser
}

fn name(text: &str) -> Identifier {
    Identifier::Identifier(text.to_string(), Type::Undefined)
}

#[test]
fn simple() {
    let mut parser = parser_for("hello");
    let result = parser.parse_ident();
    assert!(result.is_ok());
    assert_eq!(result.unwrap(), Identifier::Identifier("hello".to_string(), Type::Undefined));
}

#[test]
fn accessor() {
    let mut parser = parser_for("obj.field");
    let result = parser.parse_ident();
    assert!(result.is_ok());
    assert_eq!(
        result.unwrap(),
        Identifier::Accessor(
            Box::new(Identifier::Identifier("obj".to_string(), Type::Undefined)),
            Box::new(Identifier::Identifier("field".to_string(), Type::Undefined))
        )
    );
}

#[test]
fn compound() {
    let mut parser = parser_for("j1, j2");
    let result = parser.parse_ident();
    assert!(result.is_ok());
    assert_eq!(
        result.unwrap(),
        Identifier::Compound(vec![
            Identifier::Identifier("j1".to_string(), Type::Undefined),
            Identifier::Identifier("j2".to_string(), Type::Undefined),
        ])
    );
}

#[test]
fn compounded_accessor() {
    let mut parser = parser_for("obj.field, j2");
    let result = parser.parse_ident();
    assert!(result.is_ok());
    assert_eq!(
        result.unwrap(),
        Identifier::Compound(vec![
            Identifier::Accessor(
                Box::new(Identifier::Identifier("obj".to_string(), Type::Undefined)),
                Box::new(Identifier::Identifier("field".to_string(), Type::Undefined))
            ),
            Identifier::Identifier("j2".to_string(), Type::Undefined),
        ])
    );
}

#[test]
fn accessor_chain_groups_to_the_left() {
    let mut parser = parser_for("a.b.c");
    assert_eq!(
        parser.parse_ident().unwrap(),
        Identifier::Accessor(
            Box::new(Identifier::Accessor(Box::new(name("a")), Box::new(name("b")))),
            Box::new(name("c"))
        )
    );
}

#[test]
fn three_identifiers_share_one_compound() {
    let mut parser = parser_for("a, b, c");
    assert_eq!(
        parser.parse_ident().unwrap(),
        Identifier::Compound(vec![name("a"), name("b"), name("c")])
    );
}

#[test]
fn compound_method_appends_to_a_compound() {
    let pair = name("a").compound(name("b"));
    assert_eq!(pair, Identifier::Compound(vec![name("a"), name("b")]));
    let triple = pair.compound(name("c"));
    assert_eq!(triple, Identifier::Compound(vec![name("a"), name("b"), name("c")]));
}

#[test]
fn typed_identifier_keeps_its_declared_type() {
    let mut parser = parser_for("count: U64");
    assert_eq!(
        parser.parse_ident().unwrap(),
        Identifier::Identifier("count".to_string(), Type::Defined("U64".to_string()))
    );
}

#[test]
fn parenthesized_type_list_is_a_compound_type() {
    let mut parser = parser_for("pair: (I32, Str)");
    assert_eq!(
        parser.parse_ident().unwrap(),
        Identifier::Identifier(
            "pair".to_string(),
            Type::Compound(vec![
                Type::Defined("I32".to_string()),
                Type::Defined("Str".to_string())
            ])
        )
    );
}

#[test]
fn parenthesized_single_type_is_that_type() {
    let mut parser = parser_for("x: (I32)");
    assert_eq!(
        parser.parse_ident().unwrap(),
        Identifier::Identifier("x".to_string(), Type::Defined("I32".to_string()))
    );
}

#[test]
fn identifier_is_required() {
    let mut parser = parser_for("= 1");
    let err = parser.parse_ident().unwrap_err();
    assert_eq!(
        err,
        props_parser::error::ParserErr::UnexpectedToken {
            line: 1,
            column: 0,
            token: props_parser::tokens::Token::Assignment
        }
    );
}

#[test]
fn identifier_on_empty_parser_runs_out_of_tokens() {
    let mut parser = PropsParser::new();
    assert_eq!(parser.parse_ident().unwrap_err(), props_parser::error::ParserErr::UnexpectedEOF);
}
