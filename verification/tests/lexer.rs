use props_parser::classes::{letter, numeric_char, word_char};
use props_parser::lexer::{columns_fit, Lexer};
use props_parser::tokens::Token;
use props_parser::types::Number;

fn ident(text: &str) -> Token {
    Token::Ident(text.to_string())
}

#[test]
fn lexes_an_assignment_with_columns() {
    assert_eq!(
        Lexer::lex("josh = 2 * 2"),
        vec![
            (ident("josh"), 3),
            (Token::Whitespace, 4),
            (Token::Assignment, 5),
            (Token::Whitespace, 6),
            (Token::Number(Number::U8(2)), 7),
            (Token::Whitespace, 8),
            (Token::Multiplication, 9),
            (Token::Whitespace, 10),
            (Token::Number(Number::U8(2)), 11),
            (Token::Newline, 12),
        ]
    );
}

#[test]
fn lexes_single_character_punctuation() {
    assert_eq!(
        Lexer::lex("|:,.{}+-*/%^()!"),
        vec![
            (Token::Pipe, 0),
            (Token::TypeAnnotator, 1),
            (Token::Comma, 2),
            (Token::Period, 3),
            (Token::FuncOpen, 4),
            (Token::FuncClose, 5),
            (Token::Addition, 6),
            (Token::Subtraction, 7),
            (Token::Multiplication, 8),
            (Token::Division, 9),
            (Token::Mod, 10),
            (Token::Power, 11),
            (Token::ParenthOpen, 12),
            (Token::ParenthClose, 13),
            (Token::Not, 14),
            (Token::Newline, 15),
        ]
    );
}

#[test]
fn two_character_operators_come_before_single_ones() {
    assert_eq!(
        Lexer::lex("== >= <= = > <"),
        vec![
            (Token::Equality, 1),
            (Token::Whitespace, 2),
            (Token::GreaterEqual, 4),
            (Token::Whitespace, 5),
            (Token::LessEqual, 7),
            (Token::Whitespace, 8),
            (Token::Assignment, 9),
            (Token::Whitespace, 10),
            (Token::GreaterThan, 11),
            (Token::Whitespace, 12),
            (Token::LessThan, 13),
            (Token::Newline, 14),
        ]
    );
}

#[test]
fn string_literal_runs_to_the_next_quote() {
    assert_eq!(
        Lexer::lex("\"hello, world!\" x"),
        vec![
            (Token::StringLiteral("hello, world!".to_string()), 14),
            (Token::Whitespace, 15),
            (ident("x"), 16),
            (Token::Newline, 17),
        ]
    );
}

#[test]
fn string_literal_without_closing_quote_runs_to_the_end() {
    assert_eq!(
        Lexer::lex("\"abc"),
        vec![(Token::StringLiteral("abc".to_string()), 4), (Token::Newline, 5)]
    );
}

#[test]
fn empty_string_literal() {
    assert_eq!(
        Lexer::lex("\"\""),
        vec![(Token::StringLiteral(String::new()), 1), (Token::Newline, 2)]
    );
}

#[test]
fn comment_takes_the_rest_of_the_line() {
    assert_eq!(
        Lexer::lex("a // b = 2\nc"),
        vec![
            (ident("a"), 0),
            (Token::Whitespace, 1),
            (Token::Newline, 2),
            (ident("c"), 0),
            (Token::Newline, 1),
        ]
    );
}

#[test]
fn lone_slash_is_a_division() {
    assert_eq!(
        Lexer::lex("4/2"),
        vec![
            (Token::Number(Number::U8(4)), 0),
            (Token::Division, 1),
            (Token::Number(Number::U8(2)), 2),
            (Token::Newline, 3),
        ]
    );
}

#[test]
fn run_of_tabs_is_one_indent() {
    assert_eq!(
        Lexer::lex("\t\t\tx"),
        vec![(Token::Indent(3), 2), (ident("x"), 3), (Token::Newline, 4)]
    );
}

#[test]
fn identifier_takes_letters_digits_and_underscores() {
    assert_eq!(
        Lexer::lex("_a1_B2-c"),
        vec![
            (ident("_a1_B2"), 5),
            (Token::Subtraction, 6),
            (ident("c"), 7),
            (Token::Newline, 8),
        ]
    );
}

#[test]
fn identifier_does_not_begin_with_a_digit() {
    assert_eq!(
        Lexer::lex("1a"),
        vec![(Token::Number(Number::U8(1)), 0), (ident("a"), 1), (Token::Newline, 2)]
    );
}

#[test]
fn minus_before_a_digit_is_a_subtraction() {
    assert_eq!(
        Lexer::lex("-3"),
        vec![(Token::Subtraction, 0), (Token::Number(Number::U8(3)), 1), (Token::Newline, 2)]
    );
}

#[test]
fn number_takes_the_narrowest_unsigned_width() {
    assert_eq!(Lexer::lex("255")[0], (Token::Number(Number::U8(255)), 2));
    assert_eq!(Lexer::lex("256")[0], (Token::Number(Number::U16(256)), 2));
    assert_eq!(Lexer::lex("65536")[0], (Token::Number(Number::U32(65536)), 4));
    assert_eq!(Lexer::lex("4294967296")[0], (Token::Number(Number::U64(4294967296)), 9));
}

#[test]
fn number_with_a_point_is_a_float() {
    assert_eq!(
        Lexer::lex("1.50"),
        vec![(Token::Number(Number::F32("1.50".to_string())), 3), (Token::Newline, 4)]
    );
}

#[test]
fn number_with_two_points_falls_back_to_unknown_text() {
    assert_eq!(
        Lexer::lex("1.2.3"),
        vec![
            (Token::Unknown("1".to_string()), 0),
            (Token::Period, 1),
            (Token::Number(Number::F32("2.3".to_string())), 4),
            (Token::Newline, 5),
        ]
    );
}

#[test]
fn number_too_large_for_any_width_falls_back_digit_by_digit() {
    let tokens = Lexer::lex("99999999999999999999");
    assert_eq!(tokens[0], (Token::Unknown("9".to_string()), 0));
    assert_eq!(tokens[1], (Token::Number(Number::U64(9999999999999999999)), 19));
    assert_eq!(tokens[2], (Token::Newline, 20));
}

#[test]
fn unknown_character_is_kept_as_text() {
    assert_eq!(
        Lexer::lex("a @ b"),
        vec![
            (ident("a"), 0),
            (Token::Whitespace, 1),
            (Token::Unknown("@".to_string()), 2),
            (Token::Whitespace, 3),
            (ident("b"), 4),
            (Token::Newline, 5),
        ]
    );
}

#[test]
fn bytes_beyond_ascii_are_unknown_one_by_one() {
    assert_eq!(
        Lexer::lex("\u{e9}"),
        vec![
            (Token::Unknown("\u{c3}".to_string()), 0),
            (Token::Unknown("\u{a9}".to_string()), 1),
            (Token::Newline, 2),
        ]
    );
}

#[test]
fn return_word_ends_at_its_last_character() {
    assert_eq!(
        Lexer::lex("return x"),
        vec![
            (Token::Return, 5),
            (Token::Whitespace, 6),
            (ident("x"), 7),
            (Token::Newline, 8)
        ]
    );
    assert_eq!(Lexer::lex("return"), vec![(Token::Return, 5), (Token::Newline, 6)]);
    assert_eq!(
        Lexer::lex("  return"),
        vec![
            (Token::Whitespace, 0),
            (Token::Whitespace, 1),
            (Token::Return, 7),
            (Token::Newline, 8)
        ]
    );
    assert_eq!(
        Lexer::lex("return(1)"),
        vec![
            (Token::Return, 5),
            (Token::ParenthOpen, 6),
            (Token::Number(Number::U8(1)), 7),
            (Token::ParenthClose, 8),
            (Token::Newline, 9)
        ]
    );
}

#[test]
fn words_that_only_begin_like_return_are_identifiers() {
    assert_eq!(
        Lexer::lex("retur n"),
        vec![(ident("retur"), 4), (Token::Whitespace, 5), (ident("n"), 6), (Token::Newline, 7)]
    );
    assert_eq!(Lexer::lex("retur"), vec![(ident("retur"), 4), (Token::Newline, 5)]);
    assert_eq!(Lexer::lex("Return"), vec![(ident("Return"), 5), (Token::Newline, 6)]);
    assert_eq!(Lexer::lex("r"), vec![(ident("r"), 0), (Token::Newline, 1)]);
}

#[test]
fn every_line_ends_in_a_newline_token() {
    assert_eq!(Lexer::lex(""), vec![]);
    assert_eq!(Lexer::lex("\n"), vec![(Token::Newline, 0)]);
    assert_eq!(
        Lexer::lex("a\n\nb\n"),
        vec![
            (ident("a"), 0),
            (Token::Newline, 1),
            (Token::Newline, 0),
            (ident("b"), 0),
            (Token::Newline, 1),
        ]
    );
}

#[test]
fn carriage_return_before_a_line_feed_belongs_to_the_line_ending() {
    assert_eq!(
        Lexer::lex("a\r\nb\r"),
        vec![
            (ident("a"), 0),
            (Token::Newline, 1),
            (ident("b"), 0),
            (Token::Unknown("\r".to_string()), 1),
            (Token::Newline, 2),
        ]
    );
}

#[test]
fn columns_do_not_decrease_within_a_line() {
    let tokens = Lexer::lex("println (add 1 2) // done\n\tx = \"a b\" == y");
    let mut last = 0;
    for (token, column) in tokens {
        assert!(column >= last);
        last = if token == Token::Newline { 0 } else { column };
    }
}

#[test]
fn letter_class_holds_letters_and_underscore() {
    for c in ['a', 'm', 'z', 'A', 'Q', 'Z', '_'] {
        assert!(letter(c));
    }
    for c in ['0', '9', '-', '.', ' ', '[', '`', '{', '@', '\u{e9}'] {
        assert!(!letter(c));
    }
}

#[test]
fn word_class_adds_the_digits() {
    for c in ['a', 'Z', '_', '0', '5', '9'] {
        assert!(word_char(c));
    }
    for c in ['-', '.', ' ', '/', ':', '\u{e9}'] {
        assert!(!word_char(c));
    }
}

#[test]
fn numeric_class_holds_digits_and_period() {
    for c in ['0', '7', '9', '.'] {
        assert!(numeric_char(c));
    }
    for c in ['-', 'a', ' ', ',', '/', ':', '\u{663}'] {
        assert!(!numeric_char(c));
    }
}

#[test]
fn token_lengths() {
    assert_eq!(ident("josh").len(), 4);
    assert_eq!(Token::Unknown("\u{c3}".to_string()).len(), 2);
    assert_eq!(Token::Number(Number::U16(1234)).len(), 4);
    assert_eq!(Token::Equality.len(), 2);
    assert_eq!(Token::GreaterEqual.len(), 2);
    assert_eq!(Token::LessEqual.len(), 2);
    assert_eq!(Token::Indent(3).len(), 12);
    assert_eq!(Token::Indent(usize::MAX).len(), usize::MAX);
    assert_eq!(Token::Pipe.len(), 1);
    assert_eq!(Token::StringLiteral("hello".to_string()).len(), 1);
    assert_eq!(Token::Newline.len(), 1);
}

#[test]
fn token_kinds() {
    assert!(Token::Whitespace.is_insignificant());
    assert!(Token::Newline.is_insignificant());
    assert!(Token::Indent(1).is_insignificant());
    assert!(!Token::Comma.is_insignificant());
    assert!(!ident("a").is_insignificant());
    assert!(ident("a").is_ident());
    assert!(!Token::StringLiteral("a".to_string()).is_ident());
}

#[test]
fn columns_of_ordinary_texts_fit() {
    assert!(columns_fit(""));
    assert!(columns_fit("a = 1\nb = 2"));
}
