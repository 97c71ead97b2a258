use lambdash::chars::{is_ident, is_ident_start, is_numeric, is_space};
use lambdash::lexer::lex;
use lambdash::token::Token;

#[test]
fn character_classes() {
    assert!(is_space(' '));
    assert!(is_space('\u{a0}'));
    assert!(is_space('\t'));
    assert!(is_space('\n'));
    assert!(!is_space('x'));
    assert!(is_numeric('7'));
    assert!(!is_numeric('a'));
    assert!(is_ident_start('a'));
    assert!(!is_ident_start('1'));
    assert!(is_ident('a'));
    assert!(is_ident('1'));
    assert!(!is_ident('_'));
}

#[test]
fn two_character_operators() {
    assert!(matches!(lex("<=").unwrap()[..], [Token::LessEqual]));
    assert!(matches!(lex("<>").unwrap()[..], [Token::NotEqual]));
    assert!(matches!(lex(">=").unwrap()[..], [Token::GreaterEqual]));
    assert!(matches!(lex("!=").unwrap()[..], [Token::NotEqual]));
    assert!(matches!(lex("!<").unwrap()[..], [Token::GreaterEqual]));
    assert!(matches!(lex("!>").unwrap()[..], [Token::LessEqual]));
    assert!(matches!(lex("->").unwrap()[..], [Token::Arrow]));
    assert!(matches!(lex("-").unwrap()[..], [Token::Minus]));
    assert!(matches!(lex("<").unwrap()[..], [Token::Less]));
    assert!(matches!(lex("!").unwrap()[..], [Token::Exclam]));
}

#[test]
fn idents_words_and_integers() {
    let ts = lex("abc 'w12 345").unwrap();
    assert_eq!(ts.len(), 3);
    assert!(matches!(&ts[0], Token::Ident(n) if n.iter().collect::<String>() == "abc"));
    assert!(matches!(&ts[1], Token::Word(n) if n.iter().collect::<String>() == "w12"));
    assert!(matches!(&ts[2], Token::Integer(345)));
}

#[test]
fn comment_only_input_lexes_to_no_tokens() {
    assert_eq!(lex("  # only a comment").unwrap().len(), 0);
    assert_eq!(lex("## a ## pair ## b ##").unwrap().len(), 1);
    assert!(matches!(lex("## a ## x ## b ##").unwrap()[..], [Token::Ident(_)]));
}

#[test]
fn overlong_integer_literal_is_an_error() {
    assert!(lex("999999999999999999999999999999999999999999").is_err());
    assert!(lex("170141183460469231731687303715884105727").is_ok());
}

#[test]
fn parse_builds_one_node_per_expression() {
    assert_eq!(lambdash::parser::parse("1+2 ! 3").unwrap().len(), 2);
    assert!(lambdash::parser::parse("(").is_err());
}
