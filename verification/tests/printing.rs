use snek::compiler::{compile, error_handler, error_overflow, new_label};
use snek::instr::{instr_to_string, instrs_to_string, maddr_b, maddr_bd, maddr_bisd, Arg, Instr, Reg};
use snek::numerals::{i64_to_string, u64_to_string};
use snek::parser::parse;
use snek::repr::{parse_input, repr, repr_false, repr_n, repr_true};
use snek::syntax::Expr;

#[test]
fn numerals_exact() {
    assert_eq!(u64_to_string(0), "0");
    assert_eq!(u64_to_string(7), "7");
    assert_eq!(u64_to_string(1234567890), "1234567890");
    assert_eq!(i64_to_string(0), "0");
    assert_eq!(i64_to_string(-1), "-1");
    assert_eq!(i64_to_string(42), "42");
    assert_eq!(i64_to_string(i64::MIN), "-9223372036854775808");
    assert_eq!(i64_to_string(i64::MAX), "9223372036854775807");
}

#[test]
fn representation_constants() {
    assert_eq!(repr_true(), 7);
    assert_eq!(repr_false(), 3);
    assert_eq!(repr_n(5), 10);
    assert_eq!(repr_n(-3), -6);
    assert_eq!(repr(&Expr::Number(21)), 42);
    assert_eq!(repr(&Expr::Bool(true)), 7);
    assert_eq!(repr(&Expr::Bool(false)), 3);
}

#[test]
fn instruction_text_exact() {
    assert_eq!(
        instr_to_string(&Instr::Mov(Arg::Reg(Reg::Rax), Arg::Imm(10))),
        "mov rax, 10"
    );
    assert_eq!(
        instr_to_string(&Instr::Add(Arg::Reg(Reg::Rax), Arg::Imm(-2))),
        "add rax, -2"
    );
    assert_eq!(
        instr_to_string(&Instr::Mov(
            Arg::Reg(Reg::Rax),
            Arg::Mem(maddr_bd(Reg::Rsp, -16))
        )),
        "mov rax, [rsp - 16]"
    );
    assert_eq!(
        instr_to_string(&Instr::Mov(
            Arg::Mem(maddr_bd(Reg::R15, 8)),
            Arg::Reg(Reg::Rbx)
        )),
        "mov [r15 + 8], rbx"
    );
    assert_eq!(
        instr_to_string(&Instr::Mov(
            Arg::Reg(Reg::Rax),
            Arg::Mem(maddr_bisd(Reg::Rax, Reg::Rbx, 8, 0))
        )),
        "mov rax, [rax + rbx * 8]"
    );
    assert_eq!(
        instr_to_string(&Instr::Mov(Arg::Reg(Reg::Rcx), Arg::Mem(maddr_b(Reg::R15)))),
        "mov rcx, [r15]"
    );
    assert_eq!(instr_to_string(&Instr::Jmp(String::from("loop_0"))), "jmp loop_0");
    assert_eq!(instr_to_string(&Instr::Jne(String::from("x"))), "jne x");
    assert_eq!(instr_to_string(&Instr::Je(String::from("x"))), "je x");
    assert_eq!(instr_to_string(&Instr::Jo(String::from("x"))), "jo x");
    assert_eq!(
        instr_to_string(&Instr::Label(String::from("ifend_3"))),
        "ifend_3:"
    );
    assert_eq!(
        instr_to_string(&Instr::Call(String::from("snek_print"))),
        "call snek_print"
    );
    assert_eq!(instr_to_string(&Instr::Ret), "ret");
    assert_eq!(
        instr_to_string(&Instr::Cmovge(Arg::Reg(Reg::Rax), Arg::Reg(Reg::Rbx))),
        "cmovge rax, rbx"
    );
    assert_eq!(
        instr_to_string(&Instr::Sar(Arg::Reg(Reg::Rbx), Arg::Imm(1))),
        "sar rbx, 1"
    );
}

#[test]
fn instruction_sequence_text() {
    let v = vec![
        Instr::Mov(Arg::Reg(Reg::Rax), Arg::Imm(10)),
        Instr::Ret,
    ];
    assert_eq!(instrs_to_string(&v), "mov rax, 10\nret\n");
    assert_eq!(instrs_to_string(&Vec::new()), "");
}

#[test]
fn error_blocks_shape() {
    let h = error_handler();
    assert_eq!(instrs_to_string(&h), "snek_error_handler:\nmov rdi, rbx\ncall snek_error\n");
    let o = error_overflow();
    assert_eq!(instrs_to_string(&o), "mov rbx, 3\njo snek_error_handler\n");
}

#[test]
fn labels_are_minted_in_order() {
    let mut counter: i64 = 0;
    assert_eq!(new_label(&mut counter, "ifelse"), "ifelse_0");
    assert_eq!(new_label(&mut counter, "ifend"), "ifend_1");
    assert_eq!(new_label(&mut counter, "loop"), "loop_2");
    assert_eq!(counter, 3);
}

fn expected_frame(defs: &str, main: &str) -> String {
    let mut s = String::from("\nsection .text\nglobal our_code_starts_here\next");
    s.push_str("ern snek_error\next");
    s.push_str("ern snek_print\n");
    s.push_str("snek_error_handler:\nmov rdi, rbx\ncall snek_error\n");
    s.push_str(defs);
    s.push_str("our_code_starts_here:\nmov r15, rsi\n");
    s.push_str(main);
    s.push_str("ret\n");
    s
}

#[test]
fn compile_number_literal_exact_text() {
    let p = parse("5").unwrap();
    let text = compile(&p).unwrap();
    assert_eq!(text, expected_frame("", "mov rax, 10\n"));
}

#[test]
fn compile_input_reference_exact_text() {
    let p = parse("input").unwrap();
    let text = compile(&p).unwrap();
    assert_eq!(text, expected_frame("", "mov rax, rdi\n"));
}

#[test]
fn compile_function_emits_label_and_ret() {
    let p = parse("(fun (f x) x) (f 1)").unwrap();
    let text = compile(&p).unwrap();
    assert!(text.contains("f:\nmov rax, [rsp + 8]\nret\n"));
    assert!(text.contains("call f"));
}

#[test]
fn compiling_twice_is_byte_identical() {
    let src = "(fun (f x) (+ x 1)) (let ((a 1) (b 2)) (if (= a b) (f a) (loop (break (print b)))))";
    let p1 = parse(src).unwrap();
    let p2 = parse(src).unwrap();
    assert_eq!(p1, p2);
    let a1 = compile(&p1).unwrap();
    let a2 = compile(&p2).unwrap();
    assert_eq!(a1, a2);
}

#[test]
fn literal_out_of_range_is_a_compile_error() {
    let p = parse("4611686018427387904").unwrap();
    let e = compile(&p).unwrap_err();
    assert_eq!(e, snek::errors::CompErr::LiteralOverflow(4611686018427387904));
    assert!(e.message().contains("overflow"));
    let ok = parse("4611686018427387903").unwrap();
    assert!(compile(&ok).is_ok());
}

#[test]
fn unbound_variable_is_a_compile_error() {
    let p = parse("(+ x 1)").unwrap();
    let e = compile(&p).unwrap_err();
    assert_eq!(e, snek::errors::CompErr::UnboundVar(String::from("x")));
    assert_eq!(e.message(), "Unbound variable identifier x");
}

#[test]
fn break_outside_loop_is_a_compile_error() {
    let p = parse("(break 1)").unwrap();
    let e = compile(&p).unwrap_err();
    assert_eq!(e, snek::errors::CompErr::BreakOutsideLoop);
    assert!(e.message().contains("break"));
}

#[test]
fn size_guard_accepts_ordinary_programs() {
    let p = parse("(fun (f x) (+ x 1)) (f (f 1))").unwrap();
    assert!(snek::syntax::prog_fits_check(&p));
}

#[test]
fn input_conversion() {
    assert_eq!(parse_input("true"), Some(7));
    assert_eq!(parse_input("false"), Some(3));
    assert_eq!(parse_input("5"), Some(10));
    assert_eq!(parse_input("+7"), Some(14));
    assert_eq!(parse_input("-3"), Some((-6i64) as u64));
    assert_eq!(parse_input("0"), Some(0));
    assert_eq!(parse_input("4611686018427387903"), Some(9223372036854775806));
    assert_eq!(parse_input("-4611686018427387904"), Some(i64::MIN as u64));
    assert_eq!(parse_input("4611686018427387904"), None);
    assert_eq!(parse_input("-4611686018427387905"), None);
    assert_eq!(parse_input(""), None);
    assert_eq!(parse_input("-"), None);
    assert_eq!(parse_input("12x"), None);
    assert_eq!(parse_input("abc"), None);
}
