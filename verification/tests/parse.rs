use props_parser::error::ParserErr;
use props_parser::nodes::{AstNode, Expression, Identifier, MathExpr, MathOp};
use props_parser::parser::PropsParser;
use props_parser::tokens::Token;
use props_parser::types::{Number, Type};

fn parser_for(source: &str) -> PropsParser {
    let mut parser = PropsParser::new();
    parser.init(source.to_string());
    parser
}

fn name(text: &str) -> Identifier {
    Identifier::Identifier(text.to_string(), Type::Undefined)
}

fn lit(value: u8) -> Expression {
    Expression::MathExpr(MathExpr::Literal(Number::U8(value)))
}

fn reference(text: &str) -> Expression {
    Expression::MathExpr(MathExpr::Identifier(name(text)))
}

#[test]
fn assignment_math() {
    let mut parser = parser_for(r"josh = 2 * 2");
    let result = parser.parse();
    assert_eq!(
        result.0,
        vec![AstNode::Assignment(
            Identifier::Identifier("josh".to_string(), Type::Undefined),
            Expression::MathExpr(MathExpr::BinaryOp(
                Box::new(MathExpr::Literal(Number::U8(2))),
                Box::new(MathExpr::Literal(Number::U8(2))),
                MathOp::Mul
            )),
        )]
    );
}

#[test]
fn impure_call() {
    let mut parser = parser_for(r"println hi hi2");
    let result = parser.parse();
    assert_eq!(
        result.0,
        vec![AstNode::ImpFuncCall(
            Identifier::Identifier("println".to_string(), Type::Undefined),
            vec![
                Expression::MathExpr(MathExpr::Identifier(Identifier::Identifier(
                    "hi".to_string(),
                    Type::Undefined
                ))),
                Expression::MathExpr(MathExpr::Identifier(Identifier::Identifier(
                    "hi2".to_string(),
                    Type::Undefined
                )))
            ],
        )]
    );
}

#[test]
fn function_call_in_impure_call() {
    let mut parser = parser_for(r"println (add 1 2)");
    let result = parser.parse();
    assert_eq!(
        result.0,
        vec![AstNode::ImpFuncCall(
            Identifier::Identifier("println".to_string(), Type::Undefined),
            vec![Expression::MathExpr(MathExpr::FuncCall(
                Identifier::Identifier("add".to_string(), Type::Undefined),
                vec![
                    Expression::MathExpr(MathExpr::Literal(Number::U8(1))),
                    Expression::MathExpr(MathExpr::Literal(Number::U8(2)))
                ],
            ))],
        )]
    );
}

#[test]
fn str_literal() {
    let mut parser = parser_for("str = \"josh\"");
    let result = parser.parse();
    assert_eq!(
        result.0,
        vec![AstNode::Assignment(
            Identifier::Identifier("str".to_string(), Type::Undefined),
            Expression::StrLiteral("josh".to_string()),
        )]
    );
}

#[test]
fn str_literal_argument() {
    let mut parser = parser_for("println \"hello, world!\"");
    let result = parser.parse();
    assert_eq!(
        result.0,
        vec![AstNode::ImpFuncCall(
            Identifier::Identifier("println".to_string(), Type::Undefined),
            vec![Expression::StrLiteral("hello, world!".to_string())],
        )]
    );
}

#[test]
fn typed_assignment() {
    let mut parser = parser_for("number: I32 = 32");
    let result = parser.parse();
    assert_eq!(
        result.0,
        vec![AstNode::Assignment(
            Identifier::Identifier("number".to_string(), Type::Defined("I32".to_string())),
            Expression::MathExpr(MathExpr::Literal(Number::U8(32))),
        )]
    );
}

#[test]
fn invalid_typed_accessor() {
    let mut parser = parser_for("obj.field: I32 = 32");
    let result = parser.parse();
    assert_eq!(result.1.len(), 1);
}

#[test]
fn typed_assignment_has_no_parser_diagnostic() {
    let mut parser = parser_for("number: I32 = 32");
    let result = parser.parse();
    assert!(result.1.is_empty());
}

#[test]
fn invalid_typed_accessor_reports_the_annotation() {
    let mut parser = parser_for("obj.field: I32 = 32");
    let (nodes, errs) = parser.parse();
    assert_eq!(
        errs,
        vec![ParserErr::UnexpectedToken { line: 1, column: 9, token: Token::TypeAnnotator }]
    );
    assert_eq!(
        nodes,
        vec![
            AstNode::ImpFuncCall(
                Identifier::Accessor(Box::new(name("obj")), Box::new(name("field"))),
                vec![]
            ),
            AstNode::Assignment(name("I32"), lit(32)),
        ]
    );
}

#[test]
fn return_statement() {
    let mut parser = parser_for("return 1");
    let (nodes, errs) = parser.parse();
    assert!(errs.is_empty());
    assert_eq!(nodes, vec![AstNode::Return(lit(1))]);
}

#[test]
fn statements_on_several_lines_come_in_order() {
    let mut parser = parser_for("a = 1\nb = 2\nprint a");
    let (nodes, errs) = parser.parse();
    assert!(errs.is_empty());
    assert_eq!(
        nodes,
        vec![
            AstNode::Assignment(name("a"), lit(1)),
            AstNode::Assignment(name("b"), lit(2)),
            AstNode::ImpFuncCall(name("print"), vec![reference("a")]),
        ]
    );
}

#[test]
fn empty_source_has_no_statements() {
    let mut parser = parser_for("");
    let (nodes, errs) = parser.parse();
    assert!(nodes.is_empty());
    assert!(errs.is_empty());
}

#[test]
fn blank_lines_have_no_statements() {
    let mut parser = parser_for("\n\n  \n");
    let (nodes, errs) = parser.parse();
    assert!(nodes.is_empty());
    assert!(errs.is_empty());
}

#[test]
fn every_failing_token_leaves_one_diagnostic() {
    let mut parser = parser_for("10 ++ 5");
    let (nodes, errs) = parser.parse();
    assert!(nodes.is_empty());
    assert_eq!(
        errs,
        vec![
            ParserErr::UnexpectedToken {
                line: 1,
                column: 1,
                token: Token::Number(Number::U8(10))
            },
            ParserErr::UnexpectedToken { line: 1, column: 3, token: Token::Addition },
            ParserErr::UnexpectedToken { line: 1, column: 4, token: Token::Addition },
            ParserErr::UnexpectedToken {
                line: 1,
                column: 6,
                token: Token::Number(Number::U8(5))
            },
        ]
    );
}

#[test]
fn diagnostics_count_lines_from_one() {
    let mut parser = parser_for("a = 1\n= 2");
    let (nodes, errs) = parser.parse();
    assert_eq!(nodes.len(), 1);
    assert_eq!(
        errs[0],
        ParserErr::UnexpectedToken { line: 2, column: 0, token: Token::Assignment }
    );
}

#[test]
fn commas_join_expressions_into_one_compound() {
    let mut parser = parser_for("x = 1, 2, 3");
    let (nodes, errs) = parser.parse();
    assert!(errs.is_empty());
    assert_eq!(
        nodes,
        vec![AstNode::Assignment(name("x"), Expression::Compound(vec![lit(1), lit(2), lit(3)]))]
    );
}

#[test]
fn compound_of_mixed_expressions_is_flat() {
    let mut parser = parser_for("x = 1 + 2, \"s\", 4, |a| a");
    let (nodes, errs) = parser.parse();
    assert!(errs.is_empty());
    assert_eq!(
        nodes,
        vec![AstNode::Assignment(
            name("x"),
            Expression::Compound(vec![
                Expression::MathExpr(MathExpr::BinaryOp(
                    Box::new(MathExpr::Literal(Number::U8(1))),
                    Box::new(MathExpr::Literal(Number::U8(2))),
                    MathOp::Add
                )),
                Expression::StrLiteral("s".to_string()),
                lit(4),
                Expression::FuncLiteral {
                    params: vec![("a".to_string(), Type::Undefined)],
                    statements: vec![AstNode::Return(reference("a"))],
                    return_type: Type::Undefined,
                },
            ])
        )]
    );
}

#[test]
fn return_keyword_leaves_the_space_behind_it() {
    let mut parser = parser_for("return x + 1");
    let (nodes, errs) = parser.parse();
    assert!(errs.is_empty());
    assert_eq!(
        nodes,
        vec![AstNode::Return(Expression::MathExpr(MathExpr::BinaryOp(
            Box::new(MathExpr::Identifier(name("x"))),
            Box::new(MathExpr::Literal(Number::U8(1))),
            MathOp::Add
        )))]
    );
}

#[test]
fn return_at_the_end_of_a_line_lacks_its_expression() {
    let mut parser = parser_for("return");
    let (nodes, errs) = parser.parse();
    assert!(nodes.is_empty());
    assert_eq!(
        errs,
        vec![ParserErr::UnexpectedToken { line: 1, column: 6, token: Token::Newline }]
    );
}

#[test]
fn compound_method_appends_to_a_compound_expression() {
    let pair = lit(1).compound(lit(2));
    assert_eq!(pair, Expression::Compound(vec![lit(1), lit(2)]));
    assert_eq!(pair.compound(lit(3)), Expression::Compound(vec![lit(1), lit(2), lit(3)]));
}

#[test]
fn function_literal_with_expression_body() {
    let mut parser = parser_for("double = |x| x * 2");
    let (nodes, errs) = parser.parse();
    assert!(errs.is_empty());
    assert_eq!(
        nodes,
        vec![AstNode::Assignment(
            name("double"),
            Expression::FuncLiteral {
                params: vec![("x".to_string(), Type::Undefined)],
                statements: vec![AstNode::Return(Expression::MathExpr(MathExpr::BinaryOp(
                    Box::new(MathExpr::Identifier(name("x"))),
                    Box::new(MathExpr::Literal(Number::U8(2))),
                    MathOp::Mul
                )))],
                return_type: Type::Undefined,
            }
        )]
    );
}

#[test]
fn function_literal_with_typed_parameters_and_block() {
    let mut parser = parser_for("f = |a: I32 b| { return a}");
    let (nodes, errs) = parser.parse();
    assert!(errs.is_empty());
    assert_eq!(
        nodes,
        vec![AstNode::Assignment(
            name("f"),
            Expression::FuncLiteral {
                params: vec![
                    ("a".to_string(), Type::Defined("I32".to_string())),
                    ("b".to_string(), Type::Undefined)
                ],
                statements: vec![AstNode::Return(reference("a"))],
                return_type: Type::Undefined,
            }
        )]
    );
}

#[test]
fn function_literal_without_parameters() {
    let mut parser = parser_for("f = { x = 1 }");
    let (nodes, errs) = parser.parse();
    assert!(errs.is_empty());
    assert_eq!(
        nodes,
        vec![AstNode::Assignment(
            name("f"),
            Expression::FuncLiteral {
                params: vec![],
                statements: vec![AstNode::Assignment(name("x"), lit(1))],
                return_type: Type::Undefined,
            }
        )]
    );
}

#[test]
fn unclosed_block_runs_out_of_tokens() {
    let mut parser = parser_for("f = {");
    let (nodes, errs) = parser.parse();
    assert!(nodes.is_empty());
    assert_eq!(errs, vec![ParserErr::UnexpectedEOF]);
}

#[test]
fn missing_expression_reports_the_newline() {
    let mut parser = parser_for("x =");
    let (nodes, errs) = parser.parse();
    assert!(nodes.is_empty());
    assert_eq!(
        errs,
        vec![ParserErr::UnexpectedToken { line: 1, column: 3, token: Token::Newline }]
    );
}

#[test]
fn argument_list_ends_before_what_does_not_parse() {
    let mut parser = parser_for("print 1 )");
    let (nodes, errs) = parser.parse();
    assert_eq!(nodes, vec![AstNode::ImpFuncCall(name("print"), vec![lit(1)])]);
    assert!(errs.is_empty());
}

#[test]
fn parse_takes_every_token() {
    let mut parser = parser_for("a = 1\n) ) )\nb = 2");
    let (nodes, errs) = parser.parse();
    assert_eq!(nodes.len(), 2);
    assert_eq!(errs.len(), 3);
    let (more_nodes, more_errs) = parser.parse();
    assert!(more_nodes.is_empty());
    assert!(more_errs.is_empty());
}

#[test]
fn parser_keeps_the_source_lines() {
    let parser = parser_for("a = 1\r\nb = 2\n");
    assert_eq!(parser.source(), &vec!["a = 1".to_string(), "b = 2".to_string()]);
}

#[test]
fn clones_are_equal_to_what_they_copy() {
    let mut parser = parser_for("f = |a: (I32, Str) b| { x, o.p = add 1 \"s\", -2.5\nreturn a}");
    let (nodes, errs) = parser.parse();
    assert!(errs.is_empty());
    assert_eq!(nodes.len(), 1);
    assert_eq!(nodes.clone(), nodes);
    let err = ParserErr::UnexpectedToken { line: 1, column: 2, token: Token::Ident("x".to_string()) };
    assert_eq!(err.clone(), err);
    let mismatch = ParserErr::UnmatchedTypes {
        predicted: Type::Compound(vec![Type::Undefined, Type::Defined("A".to_string())]),
        declared: Type::Function(Box::new(Type::Undefined)),
    };
    assert_eq!(mismatch.clone(), mismatch);
}

#[test]
fn every_source_is_parsed_to_its_end() {
    let sources = [
        "",
        " ",
        "\t\t",
        "x",
        "x ",
        "x =",
        "x = ",
        "= = =",
        "f = {",
        "f = {{",
        "f = |",
        "f = ||",
        "f = |a",
        "f = |a:",
        "f = |a: (",
        "f = |a: (A,",
        "f = |a: (A, B",
        "f = |a| {",
        "f = |a| { return",
        "a.",
        "a.b.",
        "a,",
        "a: ",
        "a: (",
        "a b c d e f",
        "a (b (c (d",
        "a = ((((1",
        "a = 1 + + 2",
        "a = - - - 1",
        "a = \"unterminated",
        "return",
        "return return",
        "returnx = 1",
        "1 2 3",
        "1.2.3.4",
        "99999999999999999999999999",
        "@ # $ & ~ ` \\ ? ; ' [ ]",
        "\u{e9}t\u{e9} = 1",
        "// only a comment",
        "a = 1 // trailing",
        "a = 1\r\nb = 2\r\n",
        "x, y, z = 1, 2, 3\nprint x y z\nf = |p: I32 q| p * q\ng = { return f 1 2}",
        "a = b c , d e\n\t\tindented = \"s\" , 2 ^ 3 % 4",
        "== >= <= ! > <",
    ];
    for source in sources {
        let mut parser = parser_for(source);
        let tokens = props_parser::lexer::Lexer::lex(source).len();
        let (nodes, errs) = parser.parse();
        assert!(nodes.len() + errs.len() <= tokens, "{:?}", source);
        for (i, err) in errs.iter().enumerate() {
            if *err == ParserErr::UnexpectedEOF {
                assert_eq!(i, errs.len() - 1, "{:?}", source);
            }
            assert_eq!(err.render(parser.source()).len(), 6);
        }
        let (more_nodes, more_errs) = parser.parse();
        assert!(more_nodes.is_empty() && more_errs.is_empty(), "{:?}", source);
    }
}
