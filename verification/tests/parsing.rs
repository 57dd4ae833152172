use snek::errors::CompErr;
use snek::parser::{is_reserved_word, is_valid_id, parse};
use snek::syntax::{Expr, Op1, Op2};

fn parse_main(src: &str) -> Expr {
    parse(src).expect("program should parse").main
}

#[test]
fn number_literal() {
    assert_eq!(parse_main("5"), Expr::Number(5));
    assert_eq!(parse_main("-17"), Expr::Number(-17));
}

#[test]
fn boolean_literals() {
    assert_eq!(parse_main("true"), Expr::Bool(true));
    assert_eq!(parse_main("false"), Expr::Bool(false));
}

#[test]
fn input_is_a_variable() {
    assert_eq!(parse_main("input"), Expr::Var(String::from("input")));
}

#[test]
fn plain_identifier() {
    assert_eq!(parse_main("abc_1"), Expr::Var(String::from("abc_1")));
}

#[test]
fn uppercase_identifier_rejected() {
    let e = parse("Abc").unwrap_err();
    assert_eq!(e, CompErr::InvalidIdent(String::from("Abc")));
    assert!(e.message().contains("keyword"));
}

#[test]
fn unary_operators() {
    assert_eq!(
        parse_main("(add1 2)"),
        Expr::UnOp(Op1::Add1, Box::new(Expr::Number(2)))
    );
    assert_eq!(
        parse_main("(sub1 2)"),
        Expr::UnOp(Op1::Sub1, Box::new(Expr::Number(2)))
    );
    assert_eq!(
        parse_main("(isnum x)"),
        Expr::UnOp(Op1::IsNum, Box::new(Expr::Var(String::from("x"))))
    );
    assert_eq!(
        parse_main("(isbool x)"),
        Expr::UnOp(Op1::IsBool, Box::new(Expr::Var(String::from("x"))))
    );
}

#[test]
fn binary_operators() {
    assert_eq!(
        parse_main("(+ 1 2)"),
        Expr::BinOp(
            Op2::Plus,
            Box::new(Expr::Number(1)),
            Box::new(Expr::Number(2))
        )
    );
    assert_eq!(
        parse_main("(<= 1 2)"),
        Expr::BinOp(
            Op2::LessEqual,
            Box::new(Expr::Number(1)),
            Box::new(Expr::Number(2))
        )
    );
}

#[test]
fn let_bindings_in_order() {
    let e = parse_main("(let ((x 10) (y 20)) (+ x y))");
    match e {
        Expr::Let(bs, body) => {
            assert_eq!(bs.len(), 2);
            assert_eq!(bs[0].0, "x");
            assert_eq!(bs[0].1, Expr::Number(10));
            assert_eq!(bs[1].0, "y");
            assert_eq!(bs[1].1, Expr::Number(20));
            assert!(matches!(*body, Expr::BinOp(Op2::Plus, _, _)));
        }
        other => panic!("expected a let, got {:?}", other),
    }
}

#[test]
fn empty_bindings_rejected() {
    let e = parse("(let () 5)").unwrap_err();
    assert_eq!(e, CompErr::InvalidBindings);
    assert!(e.message().contains("Invalid bindings"));
}

#[test]
fn duplicate_binding_rejected() {
    let e = parse("(let ((x 1) (x 2)) x)").unwrap_err();
    assert_eq!(e, CompErr::DuplicateBinding);
    assert!(e.message().contains("Duplicate binding"));
}

#[test]
fn shadowing_across_nested_lets_allowed() {
    assert!(parse("(let ((x 1)) (let ((x 2)) x))").is_ok());
}

#[test]
fn reserved_word_as_binding_rejected() {
    let e = parse("(let ((loop 5)) 1)").unwrap_err();
    assert_eq!(e, CompErr::InvalidIdent(String::from("loop")));
}

#[test]
fn empty_block_rejected() {
    let e = parse("(block)").unwrap_err();
    assert_eq!(e, CompErr::InvalidBlock);
}

#[test]
fn block_and_assignment() {
    let e = parse_main("(let ((x 5)) (block (set! x 6) x))");
    match e {
        Expr::Let(_, body) => match *body {
            Expr::Block(es) => {
                assert_eq!(es.len(), 2);
                assert!(matches!(es[0], Expr::Assign(_, _)));
            }
            other => panic!("expected a block, got {:?}", other),
        },
        other => panic!("expected a let, got {:?}", other),
    }
}

#[test]
fn tuple_and_index_forms() {
    assert_eq!(
        parse_main("(tuple 1 2)"),
        Expr::Tuple(vec![Expr::Number(1), Expr::Number(2)])
    );
    assert_eq!(parse_main("(tuple)"), Expr::Tuple(vec![]));
    assert!(matches!(parse_main("(index t 0)"), Expr::Index(_, _)));
}

#[test]
fn call_forms() {
    assert_eq!(
        parse_main("(f 1 2)"),
        Expr::Call(String::from("f"), vec![Expr::Number(1), Expr::Number(2)])
    );
}

#[test]
fn reserved_head_with_wrong_arity_is_invalid_call() {
    let e = parse("(let a)").unwrap_err();
    assert_eq!(e, CompErr::InvalidCallName(String::from("let")));
    assert!(e.message().contains("Invalid function name in call: let"));
}

#[test]
fn function_definitions_collected() {
    let p = parse("(fun (f x) (+ x 1)) (f 20)").unwrap();
    assert_eq!(p.defs.len(), 1);
    assert_eq!(p.defs[0].name, "f");
    assert_eq!(p.defs[0].params, vec![String::from("x")]);
    assert!(matches!(p.main, Expr::Call(_, _)));
}

#[test]
fn duplicate_function_name_rejected() {
    let e = parse("(fun (f) 1) (fun (f) 2) 3").unwrap_err();
    assert_eq!(e, CompErr::DuplicateFunName);
}

#[test]
fn duplicate_parameters_rejected() {
    let e = parse("(fun (f x x) 1) 2").unwrap_err();
    assert_eq!(e, CompErr::DuplicateParams);
}

#[test]
fn only_definitions_rejected() {
    let e = parse("(fun (f) 1)").unwrap_err();
    assert_eq!(e, CompErr::OnlyDefinitions);
    assert!(e.message().contains("Only definitions found in program"));
}

#[test]
fn trailing_forms_after_main_ignored() {
    let p = parse("1 2 3").unwrap();
    assert_eq!(p.main, Expr::Number(1));
}

#[test]
fn surface_reader_error_is_reported() {
    let e = parse("(((").unwrap_err();
    match e {
        CompErr::Surface(msg) => assert!(!msg.is_empty()),
        other => panic!("expected a surface error, got {:?}", other),
    }
}

#[test]
fn reserved_words_recognised() {
    for w in [
        "true", "false", "input", "let", "set!", "if", "block", "loop", "break", "print", "fun",
        "tuple", "index", "add1", "sub1", "isnum", "isbool", "+", "-", "*", "=", "<", "<=", ">",
        ">=",
    ] {
        assert!(is_reserved_word(&String::from(w)), "{} must be reserved", w);
    }
    assert!(!is_reserved_word(&String::from("x")));
}

#[test]
fn identifier_rules() {
    assert!(is_valid_id(&String::from("x")));
    assert!(is_valid_id(&String::from("abc_12")));
    assert!(!is_valid_id(&String::from("")));
    assert!(!is_valid_id(&String::from("1abc")));
    assert!(!is_valid_id(&String::from("Abc")));
    assert!(!is_valid_id(&String::from("a-b")));
    assert!(!is_valid_id(&String::from("loop")));
}
