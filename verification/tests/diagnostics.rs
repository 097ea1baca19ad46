use props_parser::error::ParserErr;
use props_parser::parser::PropsParser;
use props_parser::tokens::Token;
use props_parser::types::{Number, PrimitiveType, Type};

fn source(lines: &[&str]) -> Vec<String> {
    lines.iter().map(|l| l.to_string()).collect()
}

fn unexpected(line: usize, column: usize, token: Token) -> ParserErr {
    ParserErr::UnexpectedToken { line, column, token }
}

#[test]
fn pointer_stands_under_the_token() {
    let err = unexpected(1, 5, Token::Ident("abc".to_string()));
    assert_eq!(err.pointer(), "   ^^^");
}

#[test]
fn pointer_at_column_zero_has_no_leading_spaces() {
    assert_eq!(unexpected(1, 0, Token::Assignment).pointer(), "^");
    assert_eq!(unexpected(1, 0, Token::Ident("abc".to_string())).pointer(), "^^^");
}

#[test]
fn pointer_of_a_token_wider_than_its_column_starts_at_the_margin() {
    assert_eq!(unexpected(1, 1, Token::Indent(2)).pointer(), "^^^^^^^^");
    assert_eq!(unexpected(1, 2, Token::Ident("abcd".to_string())).pointer(), "^^^^");
    assert_eq!(unexpected(1, 3, Token::Ident("abcd".to_string())).pointer(), "^^^^");
    assert_eq!(unexpected(1, 4, Token::Ident("abcd".to_string())).pointer(), " ^^^^");
}

#[test]
fn pointer_widths_follow_the_token() {
    assert_eq!(unexpected(1, 7, Token::Equality).pointer(), "      ^^");
    assert_eq!(unexpected(1, 7, Token::Comma).pointer(), "       ^");
    assert_eq!(unexpected(1, 7, Token::Number(Number::U16(1234))).pointer(), "    ^^^^");
    assert_eq!(unexpected(1, 3, Token::Indent(1)).pointer(), "^^^^");
}

#[test]
fn location_of_each_kind() {
    assert_eq!(unexpected(3, 5, Token::Ident("abc".to_string())).locate(), (3, 5, 3));
    assert_eq!(
        ParserErr::ExpectedToken {
            line: 2,
            column: 9,
            expected: Token::ParenthClose,
            found: Token::GreaterEqual
        }
        .locate(),
        (2, 9, 2)
    );
    assert_eq!(ParserErr::UnexpectedEOF.locate(), (0, 0, 1));
    assert_eq!(
        ParserErr::UnmatchedTypes { predicted: Type::Undefined, declared: Type::Undefined }
            .locate(),
        (0, 0, 1)
    );
}

#[test]
fn messages() {
    assert_eq!(
        unexpected(1, 4, Token::Addition).message(),
        "Unexpected token Addition at line 1 pos 4"
    );
    assert_eq!(
        unexpected(12, 345, Token::Ident("x".to_string())).message(),
        "Unexpected token Ident(\"x\") at line 12 pos 345"
    );
    assert_eq!(
        unexpected(0, 0, Token::Number(Number::U8(7))).message(),
        "Unexpected token Number(U8(7)) at line 0 pos 0"
    );
    assert_eq!(
        ParserErr::ExpectedToken {
            line: 2,
            column: 9,
            expected: Token::ParenthClose,
            found: Token::FuncClose
        }
        .message(),
        "Expected token ParenthClose but found FuncClose at line 2 pos 9"
    );
    assert_eq!(ParserErr::UnexpectedEOF.message(), "Unexpected end of input");
    assert_eq!(
        ParserErr::UnmatchedTypes {
            predicted: Type::Primitive(PrimitiveType::I16),
            declared: Type::Defined("Str".to_string())
        }
        .message(),
        "Can not assign type Primitive(I16) to an identifier of type Defined(\"Str\")"
    );
}

#[test]
fn rendering_has_six_lines() {
    let err = unexpected(2, 5, Token::Ident("abc".to_string()));
    assert_eq!(
        err.render(&source(&["first", "x= abc", "third"])),
        vec![
            "".to_string(),
            "Parsing Error: Unexpected token Ident(\"abc\") at line 2 pos 5".to_string(),
            "  | ".to_string(),
            "2 | x= abc".to_string(),
            "  |    ^^^".to_string(),
            "".to_string(),
        ]
    );
}

#[test]
fn rendering_at_column_zero() {
    let err = unexpected(1, 0, Token::Assignment);
    assert_eq!(
        err.render(&source(&["= 2"])),
        vec![
            "".to_string(),
            "Parsing Error: Unexpected token Assignment at line 1 pos 0".to_string(),
            "  | ".to_string(),
            "1 | = 2".to_string(),
            "  | ^".to_string(),
            "".to_string(),
        ]
    );
}

#[test]
fn rendering_without_a_place_shows_no_source_line() {
    let err = ParserErr::UnexpectedEOF;
    assert_eq!(
        err.render(&source(&["f = {"])),
        vec![
            "".to_string(),
            "Parsing Error: Unexpected end of input".to_string(),
            "  | ".to_string(),
            "0 | ".to_string(),
            "  | ^".to_string(),
            "".to_string(),
        ]
    );
}

#[test]
fn rendering_beyond_the_source_shows_no_source_line() {
    let err = unexpected(4, 2, Token::Comma);
    let lines = err.render(&source(&["a", "b", "c"]));
    assert_eq!(lines[3], "4 | ");
    assert_eq!(lines[4], "  |   ^");
    let none: Vec<String> = Vec::new();
    assert_eq!(unexpected(1, 0, Token::Comma).render(&none)[3], "1 | ");
}

#[test]
fn parser_diagnostic_renders_against_its_source() {
    let mut parser = PropsParser::new();
    parser.init("total = 1\n   == 2".to_string());
    let (_, errs) = parser.parse();
    assert_eq!(errs[0], unexpected(2, 4, Token::Equality));
    assert_eq!(
        errs[0].render(parser.source()),
        vec![
            "".to_string(),
            "Parsing Error: Unexpected token Equality at line 2 pos 4".to_string(),
            "  | ".to_string(),
            "2 |    == 2".to_string(),
            "  |    ^^".to_string(),
            "".to_string(),
        ]
    );
}

#[test]
fn unexpected_token_in_an_expression_renders_against_its_line() {
    let mut parser = PropsParser::new();
    parser.init("a = 1\nb = )".to_string());
    let (_, errs) = parser.parse();
    assert_eq!(errs[0], unexpected(2, 3, Token::Whitespace));
    assert_eq!(errs[0].render(parser.source())[3], "2 | b = )");
}
