//! End-to-end checks: programs are compiled to the instruction sequence and
//! executed by a small interpreter of the emitted subset of x86-64, with
//! the runtime's entry points intercepted.

use snek::compiler::{compile_program, error_handler};
use snek::instr::{Arg, Instr, MemAddr, Reg};
use snek::parser::parse;
use snek::syntax::{Expr, Program};
use std::collections::HashMap;

#[derive(Debug, PartialEq)]
enum Outcome {
    /// The encoded value left in RAX when the program returned.
    Value(i64),
    /// The code handed to the runtime's error routine.
    Fault(i64),
}

fn ridx(r: &Reg) -> usize {
    match r {
        Reg::Rax => 0,
        Reg::Rbx => 1,
        Reg::Rcx => 2,
        Reg::Rdx => 3,
        Reg::Rsp => 4,
        Reg::Rbp => 5,
        Reg::Rsi => 6,
        Reg::Rdi => 7,
        Reg::R15 => 8,
    }
}

struct Machine {
    regs: [i64; 9],
    mem: HashMap<i64, i64>,
    zf: bool,
    sf: bool,
    of: bool,
    printed: Vec<i64>,
}

impl Machine {
    fn addr(&self, m: &MemAddr) -> i64 {
        let MemAddr::MemAddr {
            base,
            index,
            scale,
            disp,
        } = m;
        let mut a = self.regs[ridx(base)];
        if let Some(idx) = index {
            a += self.regs[ridx(idx)] * scale.unwrap_or(1);
        }
        a + disp
    }

    fn get(&self, a: &Arg) -> i64 {
        match a {
            Arg::Reg(r) => self.regs[ridx(r)],
            Arg::Imm(i) => *i,
            Arg::Mem(m) => *self.mem.get(&self.addr(m)).unwrap_or(&0),
        }
    }

    fn set(&mut self, a: &Arg, v: i64) {
        match a {
            Arg::Reg(r) => self.regs[ridx(r)] = v,
            Arg::Mem(m) => {
                let at = self.addr(m);
                self.mem.insert(at, v);
            }
            Arg::Imm(_) => panic!("write to an immediate"),
        }
    }

    fn flags(&mut self, r: i64, o: bool) {
        self.zf = r == 0;
        self.sf = r < 0;
        self.of = o;
    }
}

fn execute(prog: &Program, input: i64) -> (Outcome, Vec<i64>) {
    let (defs, main) = compile_program(prog).expect("the program should compile");
    let mut code: Vec<Instr> = error_handler();
    code.extend(defs);
    code.push(Instr::Label(String::from("our_code_starts_here")));
    code.extend(main);
    code.push(Instr::Ret);

    let mut labels: HashMap<String, usize> = HashMap::new();
    for (i, ins) in code.iter().enumerate() {
        if let Instr::Label(l) = ins {
            labels.insert(l.clone(), i);
        }
    }

    let mut m = Machine {
        regs: [0; 9],
        mem: HashMap::new(),
        zf: false,
        sf: false,
        of: false,
        printed: Vec::new(),
    };
    m.regs[ridx(&Reg::Rsp)] = 1 << 40;
    m.regs[ridx(&Reg::Rdi)] = input << 1;
    m.regs[ridx(&Reg::R15)] = 1 << 20;

    let mut pc = labels["our_code_starts_here"] + 1;
    let mut returns: Vec<usize> = Vec::new();
    let mut steps: u64 = 0;
    loop {
        steps += 1;
        assert!(steps < 10_000_000, "step limit exceeded");
        let ins = code[pc].clone();
        pc += 1;
        match ins {
            Instr::Label(_) => {}
            Instr::Mov(d, s) => {
                let v = m.get(&s);
                m.set(&d, v);
            }
            Instr::Add(d, s) => {
                let (r, o) = m.get(&d).overflowing_add(m.get(&s));
                m.flags(r, o);
                m.set(&d, r);
            }
            Instr::Sub(d, s) => {
                let (r, o) = m.get(&d).overflowing_sub(m.get(&s));
                m.flags(r, o);
                m.set(&d, r);
            }
            Instr::Imul(d, s) => {
                let (r, o) = m.get(&d).overflowing_mul(m.get(&s));
                m.flags(r, o);
                m.set(&d, r);
            }
            Instr::Sar(d, s) => {
                let r = m.get(&d) >> (m.get(&s) & 63);
                m.flags(r, false);
                m.set(&d, r);
            }
            Instr::And(d, s) => {
                let r = m.get(&d) & m.get(&s);
                m.flags(r, false);
                m.set(&d, r);
            }
            Instr::Or(d, s) => {
                let r = m.get(&d) | m.get(&s);
                m.flags(r, false);
                m.set(&d, r);
            }
            Instr::Xor(d, s) => {
                let r = m.get(&d) ^ m.get(&s);
                m.flags(r, false);
                m.set(&d, r);
            }
            Instr::Cmp(d, s) => {
                let (r, o) = m.get(&d).overflowing_sub(m.get(&s));
                m.flags(r, o);
            }
            Instr::Test(d, s) => {
                let r = m.get(&d) & m.get(&s);
                m.flags(r, false);
            }
            Instr::Jmp(l) => pc = labels[&l],
            Instr::Je(l) => {
                if m.zf {
                    pc = labels[&l];
                }
            }
            Instr::Jne(l) => {
                if !m.zf {
                    pc = labels[&l];
                }
            }
            Instr::Jo(l) => {
                if m.of {
                    pc = labels[&l];
                }
            }
            Instr::Cmove(d, s) => {
                if m.zf {
                    let v = m.get(&s);
                    m.set(&d, v);
                }
            }
            Instr::Cmovl(d, s) => {
                if m.sf != m.of {
                    let v = m.get(&s);
                    m.set(&d, v);
                }
            }
            Instr::Cmovle(d, s) => {
                if m.zf || m.sf != m.of {
                    let v = m.get(&s);
                    m.set(&d, v);
                }
            }
            Instr::Cmovg(d, s) => {
                if !m.zf && m.sf == m.of {
                    let v = m.get(&s);
                    m.set(&d, v);
                }
            }
            Instr::Cmovge(d, s) => {
                if m.sf == m.of {
                    let v = m.get(&s);
                    m.set(&d, v);
                }
            }
            Instr::Call(l) => {
                if l == "snek_error" {
                    let printed = std::mem::take(&mut m.printed);
                    return (Outcome::Fault(m.regs[ridx(&Reg::Rdi)]), printed);
                } else if l == "snek_print" {
                    let v = m.regs[ridx(&Reg::Rdi)];
                    m.printed.push(v);
                    m.regs[ridx(&Reg::Rax)] = v;
                } else {
                    m.regs[ridx(&Reg::Rsp)] -= 8;
                    returns.push(pc);
                    pc = labels[&l];
                }
            }
            Instr::Ret => match returns.pop() {
                Some(back) => {
                    m.regs[ridx(&Reg::Rsp)] += 8;
                    pc = back;
                }
                None => {
                    let printed = std::mem::take(&mut m.printed);
                    return (Outcome::Value(m.regs[ridx(&Reg::Rax)]), printed);
                }
            },
        }
    }
}

fn run_src(src: &str, input: i64) -> Outcome {
    let p = parse(src).expect("the program should parse");
    execute(&p, input).0
}

/// Runs the program and decodes the resulting number.
fn num(src: &str, input: i64) -> i64 {
    match run_src(src, input) {
        Outcome::Value(v) => {
            assert_eq!(v & 1, 0, "expected a number encoding, got {}", v);
            v >> 1
        }
        other => panic!("expected a value, got {:?}", other),
    }
}

fn fault(src: &str, input: i64) -> i64 {
    match run_src(src, input) {
        Outcome::Fault(c) => c,
        other => panic!("expected a fault, got {:?}", other),
    }
}

#[test]
fn scenario_number_literal() {
    assert_eq!(num("5", 0), 5);
}

#[test]
fn scenario_add1_chain() {
    assert_eq!(num("(add1 (add1 (add1 40)))", 0), 43);
}

#[test]
fn scenario_let_sum() {
    assert_eq!(num("(let ((x 10) (y 20)) (+ x y))", 0), 30);
}

#[test]
fn scenario_block_assignments() {
    assert_eq!(
        num("(let ((x 5)) (block (set! x (+ x 1)) (set! x (+ x 1)) x))", 0),
        7
    );
}

#[test]
fn scenario_loop_counts_up_to_break() {
    assert_eq!(
        num(
            "(let ((i input)) (loop (if (> i 0) (break i) (set! i (add1 i)))))",
            -3
        ),
        1
    );
}

#[test]
fn scenario_index_reads_elements() {
    // The lowering re-encodes the index as word (n+1) past the pointer, so
    // index 0 reads the first element and index 2 the last.
    assert_eq!(num("(let ((t (tuple 1 2 3))) (index t 0))", 0), 1);
    assert_eq!(num("(let ((t (tuple 1 2 3))) (index t 2))", 0), 3);
}

#[test]
fn scenario_plus_on_boolean_faults_code_2() {
    assert_eq!(fault("(+ true 1)", 0), 2);
}

#[test]
fn scenario_equal_on_mixed_types_faults_code_1() {
    assert_eq!(fault("(= 1 true)", 0), 1);
}

#[test]
fn overflow_faults_code_3() {
    assert_eq!(fault("(add1 4611686018427387903)", 0), 3);
    assert_eq!(fault("(+ 4611686018427387903 1)", 0), 3);
}

#[test]
fn index_on_non_tuple_faults_code_4() {
    assert_eq!(fault("(index 1 0)", 0), 4);
}

#[test]
fn boolean_results() {
    assert_eq!(run_src("true", 0), Outcome::Value(7));
    assert_eq!(run_src("false", 0), Outcome::Value(3));
    assert_eq!(run_src("(isnum 5)", 0), Outcome::Value(7));
    assert_eq!(run_src("(isnum true)", 0), Outcome::Value(3));
    assert_eq!(run_src("(isbool true)", 0), Outcome::Value(7));
    assert_eq!(run_src("(isbool false)", 0), Outcome::Value(7));
    assert_eq!(run_src("(isbool 5)", 0), Outcome::Value(3));
    // The generator tests only the low bit, so a tuple pointer passes too.
    assert_eq!(run_src("(isbool (tuple 1))", 0), Outcome::Value(7));
}

#[test]
fn comparisons() {
    assert_eq!(run_src("(< 1 2)", 0), Outcome::Value(7));
    assert_eq!(run_src("(< 2 1)", 0), Outcome::Value(3));
    assert_eq!(run_src("(<= 2 2)", 0), Outcome::Value(7));
    assert_eq!(run_src("(> -1 -2)", 0), Outcome::Value(7));
    assert_eq!(run_src("(>= 1 2)", 0), Outcome::Value(3));
    assert_eq!(run_src("(= 2 2)", 0), Outcome::Value(7));
    assert_eq!(run_src("(= 2 3)", 0), Outcome::Value(3));
    assert_eq!(run_src("(= true false)", 0), Outcome::Value(3));
}

#[test]
fn arithmetic() {
    assert_eq!(num("(* 6 7)", 0), 42);
    assert_eq!(num("(- 10 4)", 0), 6);
    assert_eq!(num("(+ -3 5)", 0), 2);
    assert_eq!(num("(sub1 0)", 0), -1);
}

#[test]
fn if_truthiness() {
    assert_eq!(num("(if true 1 2)", 0), 1);
    assert_eq!(num("(if false 1 2)", 0), 2);
    // Any value other than false is truthy, including zero.
    assert_eq!(num("(if 0 1 2)", 0), 1);
}

#[test]
fn shadowing_resolves_inner_then_outer() {
    assert_eq!(num("(let ((x 1)) (+ (let ((x 10)) x) x))", 0), 11);
}

#[test]
fn input_flows_into_the_program() {
    assert_eq!(num("(+ input 1)", 41), 42);
}

#[test]
fn user_functions() {
    assert_eq!(num("(fun (f x) (+ x 1)) (f 20)", 0), 21);
    assert_eq!(num("(fun (add x y) (+ x y)) (add 3 4)", 0), 7);
    assert_eq!(
        num(
            "(fun (fact n) (if (= n 0) 1 (* n (fact (- n 1))))) (fact 5)",
            0
        ),
        120
    );
}

#[test]
fn input_survives_calls() {
    assert_eq!(num("(fun (f x) input) (+ (f 1) input)", 5), 10);
}

#[test]
fn print_returns_its_value() {
    let p = parse("(+ (print 21) 1)").unwrap();
    let (outcome, printed) = execute(&p, 0);
    assert_eq!(outcome, Outcome::Value(44));
    assert_eq!(printed, vec![42]);
}

#[test]
fn nested_tuples() {
    assert_eq!(num("(let ((t (tuple (tuple 9)))) (index (index t 0) 0))", 0), 9);
}

#[test]
fn tuple_length_word() {
    let p = Program {
        defs: vec![],
        main: Expr::TupleLen(Box::new(Expr::Tuple(vec![
            Expr::Number(1),
            Expr::Number(2),
        ]))),
    };
    assert_eq!(execute(&p, 0).0, Outcome::Value(4));
}

#[test]
fn tuple_set_writes_an_element() {
    let var_t = || Box::new(Expr::Var(String::from("t")));
    let p = Program {
        defs: vec![],
        main: Expr::Let(
            vec![(
                String::from("t"),
                Expr::Tuple(vec![Expr::Number(1), Expr::Number(2)]),
            )],
            Box::new(Expr::Block(vec![
                Expr::TupleSet(var_t(), Box::new(Expr::Number(0)), Box::new(Expr::Number(99))),
                Expr::Index(var_t(), Box::new(Expr::Number(0))),
            ])),
        ),
    };
    assert_eq!(execute(&p, 0).0, Outcome::Value(198));
}
