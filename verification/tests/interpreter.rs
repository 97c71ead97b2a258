use lambdash::eval::eval_start;
use lambdash::parser::ParseableIter;
use lambdash::token::Token;

fn run(src: &str) -> Vec<String> {
    eval_start(src).expect("the program should run")
}

#[test]
fn addition_prints_three() {
    assert_eq!(run("! 1+2"), vec!["3"]);
}

#[test]
fn factorial_of_five() {
    assert_eq!(
        run("factorial = \\x. x $ { 0 -> 1  x -> (factorial x-1)*x }. ! (factorial 5)"),
        vec!["120"]
    );
}

#[test]
fn integer_and_rational_parts_of_a_decimal() {
    assert_eq!(run("! [3.75]"), vec!["3"]);
    assert_eq!(run("! {3.75}"), vec!["0.75"]);
}

#[test]
fn parts_of_an_integer() {
    assert_eq!(run("! [42]"), vec!["42"]);
    assert_eq!(run("! {42}"), vec!["0"]);
}

#[test]
fn parts_recombine_to_the_decimal() {
    assert_eq!(run("! [3.75]+{3.75}"), vec!["3.75"]);
}

#[test]
fn lambda_application_and_currying() {
    assert_eq!(run("add = \\ab. a+b. ! (add 2 3)"), vec!["5"]);
    assert_eq!(run("add = \\ab. a+b. addtwo = add 2. ! (addtwo 3)"), vec!["5"]);
}

#[test]
fn comparisons_print_one_or_zero() {
    assert_eq!(run("! 1=1"), vec!["1"]);
    assert_eq!(run("! 1<>2"), vec!["1"]);
    assert_eq!(run("! 1<1"), vec!["0"]);
}

#[test]
fn identity_lambda_returns_a_word() {
    assert_eq!(run("! (\\x. x) 'hello"), vec!["'hello"]);
}

#[test]
fn switch_over_words() {
    assert_eq!(run("x = 'b. ! x $ { 'a -> 1  'b -> 2 }"), vec!["2"]);
    assert_eq!(run("x = 'c. ! x $ { 'a -> 1  'b -> 2 }"), vec!["Nothing"]);
}

#[test]
fn whitespace_and_comments_lex_to_nothing() {
    assert_eq!(run("   # a line comment\n ## a multi-line\ncomment ## \t\n"), Vec::<String>::new());
    assert_eq!(run(""), Vec::<String>::new());
}

#[test]
fn comments_contribute_no_tokens() {
    assert_eq!(run("## junk ## ! 1"), vec!["1"]);
    assert_eq!(run("# junk\n! 2"), vec!["2"]);
    assert_eq!(run("! ## inside ## 3"), vec!["3"]);
}

#[test]
fn defining_then_printing_matches_direct_printing() {
    assert_eq!(run("x = 1+2. ! x"), run("! 1+2"));
    assert_eq!(run("x = 'w. ! x"), run("! 'w"));
}

#[test]
fn saturated_and_stepwise_application_agree() {
    assert_eq!(run("f = \\ab. a-b. ! (f 7 2)"), vec!["5"]);
    assert_eq!(run("f = \\ab. a-b. g = f 7. ! (g 2)"), vec!["5"]);
}

#[test]
fn division_is_exact_when_it_divides() {
    assert_eq!(run("! 6/3"), vec!["2"]);
    assert_eq!(run("! 7/2"), vec!["3.5"]);
}

#[test]
fn partial_operator_application() {
    assert_eq!(run("! (+2) 3"), vec!["5"]);
    assert_eq!(run("! (2+) 3"), vec!["5"]);
}

#[test]
fn switch_returns_nothing_without_a_match_and_first_match_wins() {
    assert_eq!(run("! 5 $ { 1 -> 10  2 -> 20 }"), vec!["Nothing"]);
    assert_eq!(run("! 1 $ { 1 -> 10  1 -> 20 }"), vec!["10"]);
}

#[test]
fn exponentiation_goes_through_decimals() {
    assert_eq!(run("! 2^3"), vec!["8"]);
}

#[test]
fn decimal_arithmetic() {
    assert_eq!(run("! 1.5+2.25"), vec!["3.75"]);
    assert_eq!(run("! 1.5*2"), vec!["3"]);
    assert_eq!(run("! 1.5<2.5"), vec!["1"]);
    assert_eq!(run("! 1.5=1.5"), vec!["1"]);
}

#[test]
fn negative_results_print_with_a_sign() {
    assert_eq!(run("! 2-7"), vec!["-5"]);
}

#[test]
fn lambda_values_print_their_parameters() {
    assert_eq!(run("! \\xy. x"), vec!["<\u{3bb}xy.>"]);
}

#[test]
fn unit_value_prints_nothing() {
    assert_eq!(run("! ()"), vec!["Nothing"]);
}

#[test]
fn true_and_false_are_preseeded() {
    assert_eq!(run("! true"), vec!["1"]);
    assert_eq!(run("! false"), vec!["0"]);
}

#[test]
fn nonbreaking_space_is_whitespace() {
    assert_eq!(run("!\u{a0}1"), vec!["1"]);
}

#[test]
fn unicode_comparison_operators() {
    assert_eq!(run("! 2\u{2265}1"), vec!["1"]);
    assert_eq!(run("! 1\u{2260}2"), vec!["1"]);
}

#[test]
fn undefined_variable_is_an_error() {
    assert!(eval_start("! y").is_err());
}

#[test]
fn unrecognized_character_is_a_lex_error() {
    assert!(eval_start("! @").is_err());
}

#[test]
fn unclosed_parenthesis_is_a_parse_error() {
    assert!(eval_start("! (1").is_err());
}

#[test]
fn division_by_zero_is_an_error() {
    assert!(eval_start("! 1/0").is_err());
}

#[test]
fn too_many_arguments_is_an_error() {
    assert!(eval_start("f = \\a. a. ! (f 1 2)").is_err());
}

#[test]
fn operating_on_a_word_is_an_error() {
    assert!(eval_start("! 'a+1").is_err());
}

#[test]
fn calling_a_non_lambda_is_an_error() {
    assert!(eval_start("x = 1. ! (x 2)").is_err());
}

#[test]
fn decimal_inequality_negates_equality() {
    assert_eq!(run("! 1.5<>2.5"), vec!["1"]);
    assert_eq!(run("! 1.5<>1.5"), vec!["0"]);
    assert_eq!(run("! 1.5=1.5 . ! 1.5=2.5"), vec!["1", "0"]);
}

#[test]
fn parenthesized_lambda_arguments_are_atomic() {
    assert_eq!(run("! (\\xy. x) (\\z. z) 'w"), vec!["<\u{3bb}z.>"]);
}

#[test]
fn errors_name_what_was_found() {
    assert!(eval_start("! @").unwrap_err().contains('@'));
    assert!(eval_start("! (1").unwrap_err().contains("end of input"));
    assert!(eval_start("! 1 $ ( }").unwrap_err().contains("expected an opening brace"));
}

#[test]
fn integer_exponents_work_on_decimal_bases() {
    assert_eq!(run("! 3.5^2"), vec!["12.25"]);
    assert_eq!(run("n = 0-1. ! 0.5^n"), vec!["2"]);
    assert_eq!(run("n = 0-2. ! 2^n"), vec!["0.25"]);
}

#[test]
fn a_decimal_exponent_is_an_error() {
    assert!(eval_start("! 2.5^1.5").is_err());
    assert!(eval_start("! 2^1.5").is_err());
}

#[test]
fn consume_mismatch_messages_name_both_tokens() {
    let mut p = ParseableIter::new(vec![Token::Plus]);
    let e = p.consume(&Token::Period).unwrap_err();
    assert!(e.contains('.') && e.contains('+'));
}
