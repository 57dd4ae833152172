//! The instruction representation the compiler emits, its mathematical view,
//! and the verified printer that renders it as NASM text.

use vstd::prelude::*;
use vstd::string::StringExecFns;
use crate::numerals::{dec_str, int_str};

verus! {

/// x86-64 registers used by the generated code.
#[derive(Copy, Clone, Debug, PartialEq, Eq)]
pub enum Reg {
    Rax,
    Rbx,
    Rcx,
    Rdx,
    Rsp,
    Rbp,
    Rsi,
    Rdi,
    R15,
}

/// A memory operand `[base + index * scale + disp]`; index and scale are
/// optional.
#[derive(Copy, Clone, Debug, PartialEq, Eq)]
pub enum MemAddr {
    MemAddr { base: Reg, index: Option<Reg>, scale: Option<i64>, disp: i64 },
}

/// An instruction argument: a register, an immediate, or a memory operand.
#[derive(Copy, Clone, Debug, PartialEq, Eq)]
pub enum Arg {
    Reg(Reg),
    Imm(i64),
    Mem(MemAddr),
}

/// An instruction.  Two-operand forms are destination first, as in NASM.
#[derive(Clone, Debug, PartialEq, Eq)]
pub enum Instr {
    Label(String),
    Mov(Arg, Arg),
    Add(Arg, Arg),
    Sub(Arg, Arg),
    Imul(Arg, Arg),
    Sar(Arg, Arg),
    And(Arg, Arg),
    Or(Arg, Arg),
    Xor(Arg, Arg),
    Cmp(Arg, Arg),
    Test(Arg, Arg),
    Jmp(String),
    Je(String),
    Jne(String),
    Jo(String),
    Cmove(Arg, Arg),
    Cmovl(Arg, Arg),
    Cmovle(Arg, Arg),
    Cmovg(Arg, Arg),
    Cmovge(Arg, Arg),
    Call(String),
    Ret,
}

/// The mathematical view of an instruction: label names are character
/// sequences, everything else is as in `Instr`.
pub enum InstrV {
    Label(Seq<char>),
    Mov(Arg, Arg),
    Add(Arg, Arg),
    Sub(Arg, Arg),
    Imul(Arg, Arg),
    Sar(Arg, Arg),
    And(Arg, Arg),
    Or(Arg, Arg),
    Xor(Arg, Arg),
    Cmp(Arg, Arg),
    Test(Arg, Arg),
    Jmp(Seq<char>),
    Je(Seq<char>),
    Jne(Seq<char>),
    Jo(Seq<char>),
    Cmove(Arg, Arg),
    Cmovl(Arg, Arg),
    Cmovle(Arg, Arg),
    Cmovg(Arg, Arg),
    Cmovge(Arg, Arg),
    Call(Seq<char>),
    Ret,
}

impl View for Instr {
    type V = InstrV;

    open spec fn view(&self) -> InstrV {
        match self {
            Instr::Label(l) => InstrV::Label(l@),
            Instr::Mov(a, b) => InstrV::Mov(*a, *b),
            Instr::Add(a, b) => InstrV::Add(*a, *b),
            Instr::Sub(a, b) => InstrV::Sub(*a, *b),
            Instr::Imul(a, b) => InstrV::Imul(*a, *b),
            Instr::Sar(a, b) => InstrV::Sar(*a, *b),
            Instr::And(a, b) => InstrV::And(*a, *b),
            Instr::Or(a, b) => InstrV::Or(*a, *b),
            Instr::Xor(a, b) => InstrV::Xor(*a, *b),
            Instr::Cmp(a, b) => InstrV::Cmp(*a, *b),
            Instr::Test(a, b) => InstrV::Test(*a, *b),
            Instr::Jmp(l) => InstrV::Jmp(l@),
            Instr::Je(l) => InstrV::Je(l@),
            Instr::Jne(l) => InstrV::Jne(l@),
            Instr::Jo(l) => InstrV::Jo(l@),
            Instr::Cmove(a, b) => InstrV::Cmove(*a, *b),
            Instr::Cmovl(a, b) => InstrV::Cmovl(*a, *b),
            Instr::Cmovle(a, b) => InstrV::Cmovle(*a, *b),
            Instr::Cmovg(a, b) => InstrV::Cmovg(*a, *b),
            Instr::Cmovge(a, b) => InstrV::Cmovge(*a, *b),
            Instr::Call(l) => InstrV::Call(l@),
            Instr::Ret => InstrV::Ret,
        }
    }
}

/// The views of a sequence of instructions.
pub open spec fn iv(s: Seq<Instr>) -> Seq<InstrV> {
    s.map_values(|x: Instr| x@)
}

pub broadcast proof fn lemma_iv_push(s: Seq<Instr>, x: Instr)
    ensures
        #[trigger] iv(s.push(x)) == iv(s).push(x@),
{
    assert(iv(s.push(x)) =~= iv(s).push(x@));
}

pub broadcast proof fn lemma_iv_add(a: Seq<Instr>, b: Seq<Instr>)
    ensures
        #[trigger] iv(a + b) == iv(a) + iv(b),
{
    assert(iv(a + b) =~= iv(a) + iv(b));
}

/// A memory operand with a base register alone.
pub fn maddr_b(base: Reg) -> (m: MemAddr)
    ensures
        m == (MemAddr::MemAddr { base, index: None, scale: None, disp: 0i64 }),
{
    MemAddr::MemAddr { base, index: None, scale: None, disp: 0 }
}

/// A memory operand with a base register and a displacement.
pub fn maddr_bd(base: Reg, disp: i64) -> (m: MemAddr)
    ensures
        m == (MemAddr::MemAddr { base, index: None, scale: None, disp }),
{
    MemAddr::MemAddr { base, index: None, scale: None, disp }
}

/// A memory operand with base, index, scale, and displacement.
pub fn maddr_bisd(base: Reg, index: Reg, scale: i64, disp: i64) -> (m: MemAddr)
    ensures
        m == (MemAddr::MemAddr { base, index: Some(index), scale: Some(scale), disp }),
{
    MemAddr::MemAddr { base, index: Some(index), scale: Some(scale), disp }
}

/// The NASM name of a register.
pub open spec fn reg_str(r: Reg) -> Seq<char> {
    match r {
        Reg::Rax => "rax"@,
        Reg::Rbx => "rbx"@,
        Reg::Rcx => "rcx"@,
        Reg::Rdx => "rdx"@,
        Reg::Rsp => "rsp"@,
        Reg::Rbp => "rbp"@,
        Reg::Rsi => "rsi"@,
        Reg::Rdi => "rdi"@,
        Reg::R15 => "r15"@,
    }
}

/// The NASM text of a memory operand: the base, then `+ index * scale` when
/// an index is present (a missing scale prints as 1), then the displacement
/// with its sign, all in square brackets.
pub open spec fn mem_str(m: MemAddr) -> Seq<char> {
    match m {
        MemAddr::MemAddr { base, index, scale, disp } => {
            let s0 = "["@ + reg_str(base);
            let s1 = if index is Some {
                let n: i64 = if scale is Some {
                    scale->0
                } else {
                    1
                };
                s0 + " + "@ + reg_str(index->0) + " * "@ + int_str(n as int)
            } else {
                s0
            };
            let s2 = if disp > 0 {
                s1 + " + "@ + int_str(disp as int)
            } else if disp < 0 {
                s1 + " - "@ + dec_str((-(disp as int)) as nat)
            } else {
                s1
            };
            s2 + "]"@
        },
    }
}

/// The NASM text of an argument.
pub open spec fn arg_str(a: Arg) -> Seq<char> {
    match a {
        Arg::Reg(r) => reg_str(r),
        Arg::Imm(i) => int_str(i as int),
        Arg::Mem(m) => mem_str(m),
    }
}

/// The text of a two-operand instruction.
pub open spec fn two_str(op: Seq<char>, a: Arg, b: Arg) -> Seq<char> {
    op + " "@ + arg_str(a) + ", "@ + arg_str(b)
}

/// The text of an instruction that targets a label.
pub open spec fn jump_str(op: Seq<char>, l: Seq<char>) -> Seq<char> {
    op + " "@ + l
}

/// The NASM text of one instruction, without a line terminator.
pub open spec fn instr_str(i: InstrV) -> Seq<char> {
    match i {
        InstrV::Label(l) => l + ":"@,
        InstrV::Mov(a, b) => two_str("mov"@, a, b),
        InstrV::Add(a, b) => two_str("add"@, a, b),
        InstrV::Sub(a, b) => two_str("sub"@, a, b),
        InstrV::Imul(a, b) => two_str("imul"@, a, b),
        InstrV::Sar(a, b) => two_str("sar"@, a, b),
        InstrV::And(a, b) => two_str("and"@, a, b),
        InstrV::Or(a, b) => two_str("or"@, a, b),
        InstrV::Xor(a, b) => two_str("xor"@, a, b),
        InstrV::Cmp(a, b) => two_str("cmp"@, a, b),
        InstrV::Test(a, b) => two_str("test"@, a, b),
        InstrV::Jmp(l) => jump_str("jmp"@, l),
        InstrV::Je(l) => jump_str("je"@, l),
        InstrV::Jne(l) => jump_str("jne"@, l),
        InstrV::Jo(l) => jump_str("jo"@, l),
        InstrV::Cmove(a, b) => two_str("cmove"@, a, b),
        InstrV::Cmovl(a, b) => two_str("cmovl"@, a, b),
        InstrV::Cmovle(a, b) => two_str("cmovle"@, a, b),
        InstrV::Cmovg(a, b) => two_str("cmovg"@, a, b),
        InstrV::Cmovge(a, b) => two_str("cmovge"@, a, b),
        InstrV::Call(l) => jump_str("call"@, l),
        InstrV::Ret => "ret"@,
    }
}

/// The text of an instruction sequence: one instruction per line, each line
/// ended by a newline.
pub open spec fn instrs_str(s: Seq<InstrV>) -> Seq<char>
    decreases s.len(),
{
    if s.len() == 0 {
        Seq::empty()
    } else {
        instr_str(s[0]) + "\n"@ + instrs_str(s.subrange(1, s.len() as int))
    }
}

pub proof fn lemma_instrs_str_snoc(s: Seq<InstrV>, x: InstrV)
    ensures
        instrs_str(s.push(x)) == instrs_str(s) + instr_str(x) + "\n"@,
    decreases s.len(),
{
    reveal_with_fuel(instrs_str, 3);
    if s.len() == 0 {
        assert(s.push(x).subrange(1, s.push(x).len() as int) =~= Seq::<InstrV>::empty());
        assert(instrs_str(s.push(x)) =~= instrs_str(s) + instr_str(x) + "\n"@);
    } else {
        let tail = s.subrange(1, s.len() as int);
        lemma_instrs_str_snoc(tail, x);
        assert(s.push(x).subrange(1, s.push(x).len() as int) =~= tail.push(x));
        assert(s.push(x)[0] == s[0]);
        assert(instrs_str(s.push(x)) == instr_str(s[0]) + "\n"@ + instrs_str(tail.push(x)));
        assert(instrs_str(s.push(x)) =~= instrs_str(s) + instr_str(x) + "\n"@);
    }
}

/// The NASM name of a register.
pub fn reg_to_string(r: &Reg) -> (ret: String)
    ensures
        ret@ == reg_str(*r),
{
    match r {
        Reg::Rax => String::from_str("rax"),
        Reg::Rbx => String::from_str("rbx"),
        Reg::Rcx => String::from_str("rcx"),
        Reg::Rdx => String::from_str("rdx"),
        Reg::Rsp => String::from_str("rsp"),
        Reg::Rbp => String::from_str("rbp"),
        Reg::Rsi => String::from_str("rsi"),
        Reg::Rdi => String::from_str("rdi"),
        Reg::R15 => String::from_str("r15"),
    }
}

/// The NASM text of an argument.
pub fn arg_to_string(v: &Arg) -> (ret: String)
    ensures
        ret@ == arg_str(*v),
{
    match v {
        Arg::Reg(r) => reg_to_string(r),
        Arg::Imm(i) => crate::numerals::i64_to_string(*i),
        Arg::Mem(MemAddr::MemAddr { base, index, scale, disp }) => {
            let mut s = String::from_str("[");
            let base_name = reg_to_string(base);
            s.append(base_name.as_str());
            if let Some(idx) = index {
                s.append(" + ");
                let idx_name = reg_to_string(idx);
                s.append(idx_name.as_str());
                s.append(" * ");
                let n: i64 = match scale {
                    Some(sc) => *sc,
                    None => 1,
                };
                let n_text = crate::numerals::i64_to_string(n);
                s.append(n_text.as_str());
            }
            if *disp > 0 {
                s.append(" + ");
                let d_text = crate::numerals::i64_to_string(*disp);
                s.append(d_text.as_str());
            } else if *disp < 0 {
                s.append(" - ");
                let m: u64 = if *disp == i64::MIN {
                    9223372036854775808u64
                } else {
                    (-*disp) as u64
                };
                let m_text = crate::numerals::u64_to_string(m);
                s.append(m_text.as_str());
            }
            s.append("]");
            proof {
                assert(s@ =~= mem_str(MemAddr::MemAddr {
                    base: *base,
                    index: *index,
                    scale: *scale,
                    disp: *disp,
                }));
            }
            s
        },
    }
}

fn two_arg_string(op: &str, v1: &Arg, v2: &Arg) -> (s: String)
    ensures
        s@ == two_str(op@, *v1, *v2),
{
    let mut s = String::from_str(op);
    s.append(" ");
    let a_text = arg_to_string(v1);
    s.append(a_text.as_str());
    s.append(", ");
    let b_text = arg_to_string(v2);
    s.append(b_text.as_str());
    proof {
        assert(s@ =~= two_str(op@, *v1, *v2));
    }
    s
}

fn jump_string(op: &str, l: &String) -> (s: String)
    ensures
        s@ == jump_str(op@, l@),
{
    let mut s = String::from_str(op);
    s.append(" ");
    s.append(l.as_str());
    proof {
        assert(s@ =~= jump_str(op@, l@));
    }
    s
}

/// The NASM text of one instruction.
pub fn instr_to_string(i: &Instr) -> (ret: String)
    ensures
        ret@ == instr_str(i@),
{
    match i {
        Instr::Label(l) => {
            let mut s = l.clone();
            s.append(":");
            proof {
                assert(s@ =~= instr_str(i@));
            }
            s
        },
        Instr::Mov(v1, v2) => two_arg_string("mov", v1, v2),
        Instr::Add(v1, v2) => two_arg_string("add", v1, v2),
        Instr::Sub(v1, v2) => two_arg_string("sub", v1, v2),
        Instr::Imul(v1, v2) => two_arg_string("imul", v1, v2),
        Instr::Sar(v1, v2) => two_arg_string("sar", v1, v2),
        Instr::And(v1, v2) => two_arg_string("and", v1, v2),
        Instr::Or(v1, v2) => two_arg_string("or", v1, v2),
        Instr::Xor(v1, v2) => two_arg_string("xor", v1, v2),
        Instr::Cmp(v1, v2) => two_arg_string("cmp", v1, v2),
        Instr::Test(v1, v2) => two_arg_string("test", v1, v2),
        Instr::Jmp(l) => jump_string("jmp", l),
        Instr::Je(l) => jump_string("je", l),
        Instr::Jne(l) => jump_string("jne", l),
        Instr::Jo(l) => jump_string("jo", l),
        Instr::Cmove(v1, v2) => two_arg_string("cmove", v1, v2),
        Instr::Cmovl(v1, v2) => two_arg_string("cmovl", v1, v2),
        Instr::Cmovle(v1, v2) => two_arg_string("cmovle", v1, v2),
        Instr::Cmovg(v1, v2) => two_arg_string("cmovg", v1, v2),
        Instr::Cmovge(v1, v2) => two_arg_string("cmovge", v1, v2),
        Instr::Call(l) => jump_string("call", l),
        Instr::Ret => String::from_str("ret"),
    }
}

/// The NASM text of an instruction sequence, one line per instruction.
pub fn instrs_to_string(instrs: &Vec<Instr>) -> (ret: String)
    ensures
        ret@ == instrs_str(iv(instrs@)),
{
    let mut s = String::new();
    let mut i: usize = 0;
    while i < instrs.len()
        invariant
            i <= instrs@.len(),
            s@ == instrs_str(iv(instrs@).take(i as int)),
        decreases instrs@.len() - i,
    {
        let line = instr_to_string(&instrs[i]);
        s.append(line.as_str());
        s.append("\n");
        proof {
            lemma_instrs_str_snoc(iv(instrs@).take(i as int), instrs@[i as int]@);
            assert(iv(instrs@).take(i + 1 as int) =~= iv(instrs@).take(i as int).push(
                instrs@[i as int]@,
            ));
        }
        i = i + 1;
    }
    proof {
        assert(iv(instrs@).take(instrs@.len() as int) =~= iv(instrs@));
    }
    s
}

} // verus!
