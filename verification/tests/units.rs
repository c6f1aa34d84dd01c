use cylium::errors::{ErrorKind, TypesCheck};
use cylium::numtext::{i64_to_string, parse_i64};
use cylium::scope::Scope;
use cylium::types::{OrderOp, Types};
use cylium::validator::check_types;
use cylium::lexer::{tokenize_line, Token};
use cylium::textops::{str_eq, trim_str};

fn chars(s: &str) -> Vec<char> {
    s.chars().collect()
}

#[test]
fn integer_text_round_trips() {
    for v in [0i64, 1, -1, 7, 42, -42, i64::MAX, i64::MIN] {
        let text = i64_to_string(v);
        let back = parse_i64(&chars(text.as_str()));
        assert_eq!(back, Some(v));
    }
    assert_eq!(i64_to_string(-42).as_str(), "-42");
    assert_eq!(i64_to_string(i64::MIN).as_str(), "-9223372036854775808");
}

#[test]
fn integer_parse_rejects_junk() {
    assert_eq!(parse_i64(&chars("")), None);
    assert_eq!(parse_i64(&chars("+")), None);
    assert_eq!(parse_i64(&chars("12a")), None);
    assert_eq!(parse_i64(&chars("1.5")), None);
    assert_eq!(parse_i64(&chars("9223372036854775808")), None);
    assert_eq!(parse_i64(&chars("-9223372036854775808")), Some(i64::MIN));
    assert_eq!(parse_i64(&chars("+17")), Some(17));
    assert_eq!(parse_i64(&chars("007")), Some(7));
}

#[test]
fn value_arithmetic_dispatch() {
    let two = Types::Number(2);
    let three = Types::Number(3);
    assert_eq!(two.add(&three), Ok(Types::Number(5)));
    assert_eq!(two.sub(&three), Ok(Types::Number(-1)));
    assert_eq!(two.mul(&three), Ok(Types::Number(6)));
    assert_eq!(
        Types::Number(7).div(&Types::Number(2)),
        Ok(Types::Number(3))
    );
    assert_eq!(
        Types::Number(7).rem(&Types::Number(2)),
        Ok(Types::Number(1))
    );
    assert_eq!(
        Types::Number(7).div(&Types::Number(0)),
        Err(ErrorKind::DivisionByZero)
    );
    assert_eq!(
        two.add(&Types::Boolean(true)),
        Err(ErrorKind::BadArithType)
    );
    let ab = Types::String("ab".to_string());
    let cd = Types::String("cd".to_string());
    assert_eq!(ab.add(&cd), Ok(Types::String("abcd".to_string())));
    assert_eq!(
        ab.mul(&Types::Number(3)),
        Ok(Types::String("ababab".to_string()))
    );
    assert_eq!(
        Types::Number(2).mul(&Types::String("no".to_string())),
        Ok(Types::String("nono".to_string()))
    );
    assert_eq!(ab.mul(&Types::Number(0)), Ok(Types::String(String::new())));
}

#[test]
fn value_comparisons() {
    let a = Types::String("apple".to_string());
    let b = Types::String("banana".to_string());
    assert_eq!(a.order(&b, OrderOp::Less), Ok(Types::Boolean(true)));
    assert_eq!(a.order(&b, OrderOp::Greater), Ok(Types::Boolean(false)));
    assert!(a.value_eq(&Types::String("apple".to_string())));
    assert!(!a.value_eq(&Types::Number(1)));
    assert_eq!(
        Types::Boolean(true).order(&Types::Boolean(false), OrderOp::Less),
        Err(ErrorKind::BadArithType)
    );
}

#[test]
fn value_casts() {
    let (v, w) = Types::String("42".to_string()).cast_number().unwrap();
    assert_eq!(v, Types::Number(42));
    assert!(w.is_none());
    assert_eq!(
        Types::String("abc".to_string()).cast_number(),
        Err(ErrorKind::NumericParseFail)
    );
    let (v, _) = Types::Boolean(true).cast_number().unwrap();
    assert_eq!(v, Types::Number(1));
    let (v, _) = Types::Number(0).cast_boolean().unwrap();
    assert_eq!(v, Types::Boolean(false));
    let (v, _) = Types::String("true".to_string()).cast_boolean().unwrap();
    assert_eq!(v, Types::Boolean(true));
    assert_eq!(
        Types::String("yes".to_string()).cast_boolean(),
        Err(ErrorKind::BadBooleanValue)
    );
    let (v, w) = Types::Number(-7).cast_string();
    assert_eq!(v, Types::String("-7".to_string()));
    assert!(w.is_none());
}

#[test]
fn scope_resolution_order() {
    let mut consts = Scope::new();
    consts.declare("k".to_string(), Types::Number(1), true);
    let mut locals = Scope::new();
    assert!(consts.exist("k"));
    assert!(!locals.exist("k"));
    match locals.get(&consts, "k") {
        Some((v, is_const)) => {
            assert_eq!(*v, Types::Number(1));
            assert!(*is_const);
        },
        None => panic!("constant not visible"),
    }
    locals.declare("k".to_string(), Types::Number(2), false);
    match locals.get(&consts, "k") {
        Some((v, _)) => assert_eq!(*v, Types::Number(2)),
        None => panic!("local not visible"),
    }
    assert!(locals.remove("k"));
    assert!(!locals.remove("k"));
    match locals.get(&consts, "k") {
        Some((v, _)) => assert_eq!(*v, Types::Number(1)),
        None => panic!("constant lost"),
    }
}

#[test]
fn lexer_tokens_of_a_line() {
    let toks = tokenize_line(&chars("echo x1 + 2 * \"hi\"")).unwrap();
    assert_eq!(
        toks,
        vec![
            Token::Echo,
            Token::Ident("x1".to_string()),
            Token::Plus,
            Token::NumberValue(2),
            Token::Multiply,
            Token::StringValue("hi".to_string()),
        ]
    );
}

#[test]
fn lexer_two_character_operators() {
    let toks = tokenize_line(&chars("a >= 1 != 2 <= b == c")).unwrap();
    assert_eq!(toks[1], Token::GreaterEqual);
    assert_eq!(toks[3], Token::NotEqual);
    assert_eq!(toks[5], Token::LessEqual);
    assert_eq!(toks[7], Token::Equal);
}

#[test]
fn lexer_float_literal_carries_bits() {
    let toks = tokenize_line(&chars("2.5")).unwrap();
    assert_eq!(toks, vec![Token::FloatValue(2.5f64.to_bits())]);
}

#[test]
fn lexer_rejects_unclosed_string() {
    assert_eq!(
        tokenize_line(&chars("echo \"oops")),
        Err(ErrorKind::UnclosedString)
    );
}

#[test]
fn lexer_rejects_stray_bang() {
    assert_eq!(
        tokenize_line(&chars("!x")),
        Err(ErrorKind::InvalidExpression)
    );
}

#[test]
fn validator_runs_are_identical() {
    // Idempotence: the checker is a function of the tree alone.
    let src: Vec<String> = ["proc main", "number x = 1", "echo x", "end"]
        .iter()
        .map(|s| s.to_string())
        .collect();
    let handler = cylium::file_handler::FileHandler::new(src);
    let grid = cylium::lexer::tokenize_file(&handler).unwrap();
    let mut parser = cylium::parser::Parser::new(grid);
    let tree = parser.start().unwrap();
    let first = check_types(&tree);
    let second = check_types(&tree);
    assert_eq!(first, second);
    assert!(first.is_ok());
}

#[test]
fn float_kernels_are_close() {
    let s = f64::from_bits(cylium::float::f64_sqrt(2.0f64.to_bits()));
    assert!((s - std::f64::consts::SQRT_2).abs() < 1e-12);
    let z = f64::from_bits(cylium::float::f64_sin(0.0f64.to_bits()));
    assert!(z.abs() < 1e-15);
    let c = f64::from_bits(cylium::float::f64_cos(0.0f64.to_bits()));
    assert!((c - 1.0).abs() < 1e-12);
    let s2 = f64::from_bits(cylium::float::f64_sin(1.0f64.to_bits()));
    assert!((s2 - 1.0f64.sin()).abs() < 1e-9);
    let neg = f64::from_bits(cylium::float::f64_neg(1.5f64.to_bits()));
    assert_eq!(neg, -1.5);
}

#[test]
fn text_helpers() {
    assert!(str_eq("alpha", "alpha"));
    assert!(!str_eq("alpha", "alphb"));
    assert_eq!(trim_str("  mid dle\t").as_str(), "mid dle");
    assert_eq!(trim_str("").as_str(), "");
}

#[test]
fn types_check_is_a_small_lattice() {
    assert_eq!(Types::Number(1).type_of(), TypesCheck::Number);
    assert_eq!(Types::Boolean(true).type_of(), TypesCheck::Boolean);
    assert_eq!(Types::String(String::new()).type_of(), TypesCheck::String);
    assert_eq!(Types::Float(0).type_of(), TypesCheck::Float);
}
