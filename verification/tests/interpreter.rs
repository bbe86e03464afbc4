use lispcore::env::ExecutionEnv;
use lispcore::lex::{Bracket, LexError, Lexer, Token};
use lispcore::liblisp::Literal;
use lispcore::reader::Parser;

const FUEL: u64 = 1000;

fn lex(src: &str) -> Lexer {
    let mut lexer = Lexer::from_string(src.to_string());
    lexer.tokenize().expect("lexical failure");
    lexer.substitute();
    lexer
}

fn read(src: &str) -> Vec<Literal> {
    let mut parser = Parser::from_tokenizer(lex(src));
    parser.parse();
    parser.out()
}

fn run_opt(src: &str) -> Vec<Option<Literal>> {
    let mut env = ExecutionEnv::root();
    read(src)
        .into_iter()
        .map(|a| ExecutionEnv::evaluate(&mut env, a, FUEL))
        .collect()
}

fn run(src: &str) -> Vec<Literal> {
    run_opt(src)
        .into_iter()
        .map(|r| r.expect("recursion limit reached"))
        .collect()
}

fn num(x: f64) -> Literal {
    Literal::Num(x.to_bits())
}

#[test]
fn tokenize_simple_addition() {
    let lexer = lex("(+ 1 2)");
    let expected = vec![
        Token::Bracket(Bracket::ParenOpen),
        Token::Identifier("+".to_string()),
        Token::NumberLiteral(1.0f64.to_bits()),
        Token::NumberLiteral(2.0f64.to_bits()),
        Token::Bracket(Bracket::ParenClose),
        Token::EndOfStream,
    ];
    assert_eq!(lexer.out, expected);
}

#[test]
fn read_simple_addition() {
    let forms = read("(+ 1 2)");
    let expected = vec![Literal::List(vec![
        Literal::Atom("+".to_string()),
        num(1.0),
        num(2.0),
    ])];
    assert_eq!(forms, expected);
}

#[test]
fn evaluate_simple_addition() {
    assert_eq!(run("(+ 1 2)"), vec![num(3.0)]);
}

#[test]
fn division_by_zero_is_infinity() {
    let r = run("(/ 1 0)");
    assert_eq!(r, vec![num(1.0f64 / 0.0f64)]);
    match &r[0] {
        Literal::Num(bits) => assert!(f64::from_bits(*bits).is_infinite()),
        other => panic!("expected a number, got {:?}", other),
    }
}

#[test]
fn subtraction_arity_error_has_code_minus_five() {
    let r = run("(- 1)");
    match &r[0] {
        Literal::ErrVal(msg, code) => {
            assert_eq!(*code, -5);
            assert!(msg.contains("requires 2 arguments"));
        }
        other => panic!("expected an error value, got {:?}", other),
    }
}

#[test]
fn division_arity_error_has_code_minus_five() {
    let r = run("(/ 1 2 3)");
    match &r[0] {
        Literal::ErrVal(_, code) => assert_eq!(*code, -5),
        other => panic!("expected an error value, got {:?}", other),
    }
}

#[test]
fn defn_returns_name_and_call_applies_body() {
    let r = run("(defn add-3 (a) (+ a 3)) (add-3 3)");
    assert_eq!(r[0].print(), "add-3");
    assert_eq!(r[1], num(6.0));
}

#[test]
fn closure_extra_arguments_are_ignored() {
    let r = run("(defn second-of (a b) (+ b 0)) (second-of 1 2 3)");
    assert_eq!(r[1], num(2.0));
}

#[test]
fn closure_missing_argument_leaves_parameter_unbound() {
    let r = run("(defn both (a b) (+ a b)) (both 1)");
    match &r[1] {
        Literal::ErrVal(_, code) => assert_eq!(*code, -4),
        other => panic!("expected a type-error value, got {:?}", other),
    }
}

#[test]
fn pure_arithmetic_reevaluates_identically() {
    let first = run("(+ 1 (* 2 3))");
    let second = run("(+ 1 (* 2 3))");
    assert_eq!(first, second);
    assert_eq!(first, vec![num(7.0)]);
}

#[test]
fn unmatched_parenthesis_is_an_error_value_not_an_abort() {
    let forms = read("(+ 1 2");
    assert_eq!(forms.len(), 1);
    match &forms[0] {
        Literal::List(items) => match items.last() {
            Some(Literal::ErrVal(msg, code)) => {
                assert!(msg.contains("Unmatched Parenthesis"));
                assert_eq!(*code, -1);
            }
            other => panic!("expected a trailing error value, got {:?}", other),
        },
        other => panic!("expected a list, got {:?}", other),
    }
}

#[test]
fn unsupported_character_is_a_fatal_lexical_failure() {
    let mut lexer = Lexer::from_string("ab\u{7}".to_string());
    let r = lexer.tokenize();
    assert_eq!(
        r,
        Err(LexError {
            character: '\u{7}',
            position: 2,
        })
    );
}

#[test]
fn reserved_words_are_reclassified() {
    let lexer = lex("true nil truex");
    assert_eq!(lexer.out[0], Token::ReservedWord("true".to_string()));
    assert_eq!(lexer.out[1], Token::ReservedWord("nil".to_string()));
    assert_eq!(lexer.out[2], Token::Identifier("truex".to_string()));
}

#[test]
fn key_symbols_keep_their_colon() {
    let lexer = lex(":key 1");
    assert_eq!(lexer.out[0], Token::KeySymbol(":key".to_string()));
}

#[test]
fn string_literals_keep_spaces_digits_and_colons() {
    let lexer = lex("\"a 1:b(\"");
    assert_eq!(lexer.out[0], Token::StringLiteral("a 1:b(".to_string()));
}

#[test]
fn all_eight_brackets_are_lexed() {
    let lexer = lex("()[]{}<>");
    let expected = vec![
        Token::Bracket(Bracket::ParenOpen),
        Token::Bracket(Bracket::ParenClose),
        Token::Bracket(Bracket::SquareOpen),
        Token::Bracket(Bracket::SquareClose),
        Token::Bracket(Bracket::CurlyOpen),
        Token::Bracket(Bracket::CurlyClose),
        Token::Bracket(Bracket::AngleOpen),
        Token::Bracket(Bracket::AngleClose),
        Token::EndOfStream,
    ];
    assert_eq!(lexer.out, expected);
}

#[test]
fn bracket_format_renders_the_source_character() {
    assert_eq!(Bracket::ParenOpen._format(), "(");
    assert_eq!(Bracket::AngleClose._format(), ">");
}

#[test]
fn progn_keeps_only_the_last_result() {
    assert_eq!(run("(progn 1 2)"), vec![num(2.0)]);
}

#[test]
fn progn_without_arguments_is_an_error() {
    let r = run("(progn)");
    match &r[0] {
        Literal::ErrVal(_, code) => assert_eq!(*code, -1),
        other => panic!("expected an error value, got {:?}", other),
    }
}

#[test]
fn empty_list_evaluates_to_null_atom() {
    assert_eq!(run("()"), vec![Literal::Atom("null".to_string())]);
}

#[test]
fn unknown_function_name_has_code_three() {
    let r = run("(nope 1)");
    match &r[0] {
        Literal::ErrVal(msg, code) => {
            assert_eq!(*code, 3);
            assert!(msg.contains("is not a recognized function name"));
        }
        other => panic!("expected an error value, got {:?}", other),
    }
}

#[test]
fn multiplication_folds_from_one() {
    assert_eq!(run("(*)"), vec![num(1.0)]);
    assert_eq!(run("(* 2 3 4)"), vec![num(24.0)]);
}

#[test]
fn addition_folds_from_zero() {
    assert_eq!(run("(+)"), vec![num(0.0)]);
    assert_eq!(run("(+ 1 2 3 4)"), vec![num(10.0)]);
}

#[test]
fn subtraction_and_division_are_exact() {
    assert_eq!(run("(- 10 4)"), vec![num(6.0)]);
    assert_eq!(run("(/ 1 2)"), vec![num(0.5)]);
}

#[test]
fn addition_of_a_string_is_a_type_error() {
    let r = run("(+ 1 \"x\")");
    match &r[0] {
        Literal::ErrVal(msg, code) => {
            assert_eq!(*code, -4);
            assert!(msg.contains("non-numeric"));
        }
        other => panic!("expected an error value, got {:?}", other),
    }
}

#[test]
fn unbound_variable_is_a_data_level_error() {
    let r = run("x");
    match &r[0] {
        Literal::ErrVal(msg, code) => {
            assert_eq!(*code, -2);
            assert!(msg.contains("is not bound"));
        }
        other => panic!("expected an error value, got {:?}", other),
    }
}

#[test]
fn computed_operator_must_resolve_through_functions() {
    let r = run("(defn f (a) (+ a 1)) ((progn f) 2)");
    match &r[1] {
        Literal::ErrVal(_, code) => assert_eq!(*code, 3),
        other => panic!("expected an error value, got {:?}", other),
    }
}

#[test]
fn runaway_recursion_exhausts_fuel_fatally() {
    let r = run_opt("(defn spin (a) (spin a)) (spin 1)");
    assert!(r[0].is_some());
    assert!(r[1].is_none());
}

#[test]
fn error_values_render_with_their_code() {
    let e = Literal::ErrVal("boom".to_string(), -5);
    assert_eq!(e.print(), "boom with code -5");
}

#[test]
fn rendering_of_atoms_strings_numbers_and_lists() {
    assert_eq!(Literal::Atom("abc".to_string()).print(), "abc");
    assert_eq!(Literal::Str("a b".to_string()).print(), "a b");
    assert_eq!(num(3.0).print(), "3");
    let l = Literal::List(vec![Literal::Atom("ab".to_string()), num(7.0)]);
    assert_eq!(l.print(), "(ab7)");
}

#[test]
fn numbers_lex_to_binary64_encodings() {
    let lexer = lex("12345678901234567890123");
    assert_eq!(
        lexer.out[0],
        Token::NumberLiteral("12345678901234567890123".parse::<f64>().unwrap().to_bits())
    );
}

#[test]
fn identifiers_may_mix_letters_digits_and_specials() {
    let lexer = lex("add-3 a+b x2");
    assert_eq!(lexer.out[0], Token::Identifier("add-3".to_string()));
    assert_eq!(lexer.out[1], Token::Identifier("a+b".to_string()));
    assert_eq!(lexer.out[2], Token::Identifier("x2".to_string()));
}

#[test]
fn nested_lists_read_correctly() {
    let forms = read("(+ (* 1) 2)");
    let expected = vec![Literal::List(vec![
        Literal::Atom("+".to_string()),
        Literal::List(vec![Literal::Atom("*".to_string()), num(1.0)]),
        num(2.0),
    ])];
    assert_eq!(forms, expected);
}

#[test]
fn nested_arithmetic_evaluates_inside_out() {
    assert_eq!(run("(- (* 2 5) (/ 8 2))"), vec![num(6.0)]);
}

#[test]
fn defn_registration_persists_across_forms() {
    let r = run("(defn twice (a) (* a 2)) (twice 4) (twice 10)");
    assert_eq!(r[1], num(8.0));
    assert_eq!(r[2], num(20.0));
}
