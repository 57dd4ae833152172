//! The code generator: the abstract syntax tree lowered to the instruction
//! sequence, threading the environment, the stack index, the loop exit
//! label, and the label counter.  Every executable function emits exactly
//! the sequence its specification function describes.

use vstd::prelude::*;
use vstd::string::StringExecFns;
use crate::syntax::{Expr, ExprV, FunDef, FunDefV, Program, ProgramV, Op1, Op2, ev, ebs, evs, pvs, dvs,
    esize, esize_list, esize_bindings, fun_size, defs_size, prog_size, prog_fits, SIZE_LIMIT,
    lemma_esize_list_nonneg, lemma_esize_list_index, lemma_esize_bindings_nonneg,
    lemma_esize_bindings_index, lemma_evs_len, lemma_evs_index, lemma_ebs_len, lemma_ebs_index};
use crate::instr::{Reg, MemAddr, Arg, Instr, InstrV, iv, lemma_iv_push, lemma_iv_add, maddr_b,
    maddr_bd, maddr_bisd, instrs_str, instrs_to_string, lemma_instrs_str_snoc};
use crate::errors::{CompErr, CompErrV};
use crate::numerals::{dec_str, u64_to_string};
use crate::repr::{NUM_MIN, NUM_MAX, repr_true, repr_false};
use crate::envmap::{env_entries, env_new, env_clone, env_contains, env_get, env_insert};

verus! {

/// The largest stack offset the generated code can mention: eight times the
/// program size bound.
pub const OFF_LIMIT: i64 = 0x8_0000_0000_0000;

/// A compile-time environment whose offsets are all within the machine
/// bound.
pub open spec fn env_ok(env: Map<Seq<char>, i64>) -> bool {
    forall|k: Seq<char>| env.dom().contains(k) ==> -OFF_LIMIT <= #[trigger] env[k] <= OFF_LIMIT
}

/// A register argument.
pub open spec fn rg(r: Reg) -> Arg {
    Arg::Reg(r)
}

/// An immediate argument.
pub open spec fn imv(i: int) -> Arg {
    Arg::Imm(i as i64)
}

/// A `[base]` memory argument.
pub open spec fn mem_b(base: Reg) -> Arg {
    Arg::Mem(MemAddr::MemAddr { base, index: None, scale: None, disp: 0i64 })
}

/// A `[base + disp]` memory argument.
pub open spec fn mem_bd(base: Reg, disp: int) -> Arg {
    Arg::Mem(MemAddr::MemAddr { base, index: None, scale: None, disp: disp as i64 })
}

/// A `[base + index * scale]` memory argument.
pub open spec fn mem_bis(base: Reg, index: Reg, scale: int) -> Arg {
    Arg::Mem(
        MemAddr::MemAddr { base, index: Some(index), scale: Some(scale as i64), disp: 0i64 },
    )
}

/// A label of the form `prefix_n`.
pub open spec fn label_text(prefix: Seq<char>, n: int) -> Seq<char> {
    prefix + "_"@ + dec_str(n as nat)
}

/// The error handler: the code in RBX becomes the first argument and the
/// runtime's error routine is called.
pub open spec fn err_handler_seq() -> Seq<InstrV> {
    seq![
        InstrV::Label("snek_error_handler"@),
        InstrV::Mov(rg(Reg::Rdi), rg(Reg::Rbx)),
        InstrV::Call("snek_error"@),
    ]
}

/// The guard that raises code 1 when RAX and RCX hold values of different
/// types, that is, with different low bits.
pub open spec fn diff_type_seq() -> Seq<InstrV> {
    seq![
        InstrV::Mov(rg(Reg::Rbx), imv(1)),
        InstrV::Xor(rg(Reg::Rcx), rg(Reg::Rax)),
        InstrV::Test(rg(Reg::Rcx), imv(1)),
        InstrV::Jne("snek_error_handler"@),
    ]
}

/// The guard that raises code 2 when RAX does not hold a number.
pub open spec fn not_num_seq() -> Seq<InstrV> {
    seq![
        InstrV::Mov(rg(Reg::Rbx), imv(2)),
        InstrV::Test(rg(Reg::Rax), imv(1)),
        InstrV::Jne("snek_error_handler"@),
    ]
}

/// The guard that raises code 3 when the previous instruction overflowed.
pub open spec fn overflow_seq() -> Seq<InstrV> {
    seq![InstrV::Mov(rg(Reg::Rbx), imv(3)), InstrV::Jo("snek_error_handler"@)]
}

/// The guard that raises code 4 when RAX does not hold a tuple pointer.
pub open spec fn not_tuple_seq() -> Seq<InstrV> {
    seq![
        InstrV::Mov(rg(Reg::Rcx), rg(Reg::Rax)),
        InstrV::And(rg(Reg::Rcx), imv(3)),
        InstrV::Cmp(rg(Reg::Rcx), imv(1)),
        InstrV::Mov(rg(Reg::Rbx), imv(4)),
        InstrV::Jne("snek_error_handler"@),
    ]
}

/// The tail of an arithmetic or comparison lowering, after both operands
/// are known to be numbers: the first operand sits in the slot at `off`
/// below RSP, the second in RAX.
pub open spec fn op_tail(op: Op2, off: int) -> Seq<InstrV> {
    match op {
        Op2::Plus => seq![InstrV::Add(rg(Reg::Rax), mem_bd(Reg::Rsp, -off))] + overflow_seq(),
        Op2::Minus => seq![InstrV::Sub(mem_bd(Reg::Rsp, -off), rg(Reg::Rax))] + overflow_seq()
            + seq![InstrV::Mov(rg(Reg::Rax), mem_bd(Reg::Rsp, -off))],
        Op2::Times => seq![
            InstrV::Sar(rg(Reg::Rax), imv(1)),
            InstrV::Imul(rg(Reg::Rax), mem_bd(Reg::Rsp, -off)),
        ] + overflow_seq(),
        Op2::Less => cmp_head(off).push(InstrV::Cmovl(rg(Reg::Rax), rg(Reg::Rbx))),
        Op2::LessEqual => cmp_head(off).push(InstrV::Cmovle(rg(Reg::Rax), rg(Reg::Rbx))),
        Op2::Greater => cmp_head(off).push(InstrV::Cmovg(rg(Reg::Rax), rg(Reg::Rbx))),
        Op2::GreaterEqual => cmp_head(off).push(InstrV::Cmovge(rg(Reg::Rax), rg(Reg::Rbx))),
        Op2::Equal => Seq::empty(),
    }
}

/// The comparison preamble: compare the saved operand with RAX and preload
/// the two boolean encodings.
pub open spec fn cmp_head(off: int) -> Seq<InstrV> {
    seq![
        InstrV::Cmp(mem_bd(Reg::Rsp, -off), rg(Reg::Rax)),
        InstrV::Mov(rg(Reg::Rbx), imv(7)),
        InstrV::Mov(rg(Reg::Rax), imv(3)),
    ]
}

/// What lowering an expression emits, and the label counter afterwards.
pub open spec fn sc_expr(
    e: ExprV,
    si: int,
    env: Map<Seq<char>, i64>,
    brake: Seq<char>,
    l: int,
) -> Result<(Seq<InstrV>, int), CompErrV>
    decreases e, 2int,
{
    match e {
        ExprV::Number(n) => {
            if NUM_MIN <= n <= NUM_MAX {
                Ok((seq![InstrV::Mov(rg(Reg::Rax), imv(2 * n))], l))
            } else {
                Err(CompErrV::LiteralOverflow(n))
            }
        },
        ExprV::Bool(b) => Ok(
            (
                seq![
                    InstrV::Mov(
                        rg(Reg::Rax),
                        imv(
                            if b {
                                7int
                            } else {
                                3int
                            },
                        ),
                    ),
                ],
                l,
            ),
        ),
        ExprV::Var(x) => {
            if x == "input"@ {
                Ok((seq![InstrV::Mov(rg(Reg::Rax), rg(Reg::Rdi))], l))
            } else if env.dom().contains(x) {
                Ok((seq![InstrV::Mov(rg(Reg::Rax), mem_bd(Reg::Rsp, -env[x]))], l))
            } else {
                Err(CompErrV::UnboundVar(x))
            }
        },
        ExprV::Let(bs, body) => {
            match sc_bindings(bs, si, si, env, brake, l) {
                Err(e1) => Err(e1),
                Ok((s1, env2, l1)) => {
                    match sc_expr(*body, si + bs.len(), env2, brake, l1) {
                        Err(e1) => Err(e1),
                        Ok((s2, l2)) => Ok((s1 + s2, l2)),
                    }
                },
            }
        },
        ExprV::UnOp(op, e1) => {
            match sc_expr(*e1, si, env, brake, l) {
                Err(er) => Err(er),
                Ok((s1, l1)) => {
                    match op {
                        Op1::Add1 => Ok(
                            (
                                s1 + not_num_seq() + seq![InstrV::Add(rg(Reg::Rax), imv(2))]
                                    + overflow_seq(),
                                l1,
                            ),
                        ),
                        Op1::Sub1 => Ok(
                            (
                                s1 + not_num_seq() + seq![InstrV::Sub(rg(Reg::Rax), imv(2))]
                                    + overflow_seq(),
                                l1,
                            ),
                        ),
                        Op1::IsNum => Ok(
                            (
                                s1 + seq![
                                    InstrV::Test(rg(Reg::Rax), imv(1)),
                                    InstrV::Mov(rg(Reg::Rax), imv(3)),
                                    InstrV::Mov(rg(Reg::Rbx), imv(7)),
                                    InstrV::Cmove(rg(Reg::Rax), rg(Reg::Rbx)),
                                ],
                                l1,
                            ),
                        ),
                        Op1::IsBool => Ok(
                            (
                                s1 + seq![
                                    InstrV::Test(rg(Reg::Rax), imv(1)),
                                    InstrV::Mov(rg(Reg::Rax), imv(7)),
                                    InstrV::Mov(rg(Reg::Rbx), imv(3)),
                                    InstrV::Cmove(rg(Reg::Rax), rg(Reg::Rbx)),
                                ],
                                l1,
                            ),
                        ),
                    }
                },
            }
        },
        ExprV::BinOp(op, e1, e2) => {
            match sc_expr(*e1, si, env, brake, l) {
                Err(er) => Err(er),
                Ok((s1, l1)) => {
                    match sc_expr(*e2, si + 1, env, brake, l1) {
                        Err(er) => Err(er),
                        Ok((s2, l2)) => {
                            if op is Equal {
                                Ok(
                                    (
                                        s1 + seq![
                                            InstrV::Mov(mem_bd(Reg::Rsp, -(si * 8)), rg(Reg::Rax)),
                                        ] + s2 + seq![
                                            InstrV::Mov(rg(Reg::Rcx), mem_bd(Reg::Rsp, -(si * 8))),
                                        ] + diff_type_seq() + seq![
                                            InstrV::Cmp(rg(Reg::Rax), mem_bd(Reg::Rsp, -(si * 8))),
                                            InstrV::Mov(rg(Reg::Rax), imv(3)),
                                            InstrV::Mov(rg(Reg::Rbx), imv(7)),
                                            InstrV::Cmove(rg(Reg::Rax), rg(Reg::Rbx)),
                                        ],
                                        l2,
                                    ),
                                )
                            } else {
                                Ok(
                                    (
                                        s1 + not_num_seq() + seq![
                                            InstrV::Mov(mem_bd(Reg::Rsp, -(si * 8)), rg(Reg::Rax)),
                                        ] + s2 + not_num_seq() + op_tail(op, si * 8),
                                        l2,
                                    ),
                                )
                            }
                        },
                    }
                },
            }
        },
        ExprV::If(c, t, f) => {
            let else_l = label_text("ifelse"@, l);
            let end_l = label_text("ifend"@, l + 1);
            match sc_expr(*c, si, env, brake, l + 2) {
                Err(er) => Err(er),
                Ok((s_c, l1)) => {
                    match sc_expr(*t, si, env, brake, l1) {
                        Err(er) => Err(er),
                        Ok((s_t, l2)) => {
                            match sc_expr(*f, si, env, brake, l2) {
                                Err(er) => Err(er),
                                Ok((s_f, l3)) => Ok(
                                    (
                                        s_c + seq![
                                            InstrV::Cmp(rg(Reg::Rax), imv(3)),
                                            InstrV::Je(else_l),
                                        ] + s_t + seq![InstrV::Jmp(end_l), InstrV::Label(else_l)]
                                            + s_f + seq![InstrV::Label(end_l)],
                                        l3,
                                    ),
                                ),
                            }
                        },
                    }
                },
            }
        },
        ExprV::Loop(b) => {
            let start_l = label_text("loop"@, l);
            let end_l = label_text("loopend"@, l + 1);
            match sc_expr(*b, si, env, end_l, l + 2) {
                Err(er) => Err(er),
                Ok((s_b, l1)) => Ok(
                    (
                        seq![InstrV::Label(start_l)] + s_b + seq![
                            InstrV::Jmp(start_l),
                            InstrV::Label(end_l),
                        ],
                        l1,
                    ),
                ),
            }
        },
        ExprV::Break(b) => {
            if brake.len() == 0 {
                Err(CompErrV::BreakOutsideLoop)
            } else {
                match sc_expr(*b, si, env, brake, l) {
                    Err(er) => Err(er),
                    Ok((s_b, l1)) => Ok((s_b + seq![InstrV::Jmp(brake)], l1)),
                }
            }
        },
        ExprV::Assign(x, e1) => {
            if env.dom().contains(x) {
                match sc_expr(*e1, si, env, brake, l) {
                    Err(er) => Err(er),
                    Ok((s1, l1)) => Ok(
                        (s1 + seq![InstrV::Mov(mem_bd(Reg::Rsp, -env[x]), rg(Reg::Rax))], l1),
                    ),
                }
            } else {
                Err(CompErrV::UnboundVar(x))
            }
        },
        ExprV::Block(es) => sc_seq(es, si, env, brake, l),
        ExprV::Print(e1) => {
            match sc_expr(*e1, si, env, brake, l) {
                Err(er) => Err(er),
                Ok((s1, l1)) => {
                    let index = if si % 2 == 0 {
                        si
                    } else {
                        si + 1
                    };
                    let off = index * 8;
                    Ok(
                        (
                            s1 + seq![
                                InstrV::Mov(mem_bd(Reg::Rsp, -off), rg(Reg::Rdi)),
                                InstrV::Mov(rg(Reg::Rdi), rg(Reg::Rax)),
                                InstrV::Sub(rg(Reg::Rsp), imv(off)),
                                InstrV::Call("snek_print"@),
                                InstrV::Add(rg(Reg::Rsp), imv(off)),
                                InstrV::Mov(rg(Reg::Rdi), mem_bd(Reg::Rsp, -off)),
                            ],
                            l1,
                        ),
                    )
                },
            }
        },
        ExprV::Tuple(es) => {
            match sc_elems(es, si, env, brake, l) {
                Err(er) => Err(er),
                Ok((s1, l1)) => Ok(
                    (
                        s1 + seq![
                            InstrV::Mov(rg(Reg::Rbx), imv(2 * es.len() as int)),
                            InstrV::Mov(mem_b(Reg::R15), rg(Reg::Rbx)),
                        ] + tuple_moves(es.len() as int, si, 0) + seq![
                            InstrV::Mov(rg(Reg::Rax), rg(Reg::R15)),
                            InstrV::Add(rg(Reg::Rax), imv(1)),
                            InstrV::Add(rg(Reg::R15), imv((es.len() as int + 1) * 8)),
                        ],
                        l1,
                    ),
                ),
            }
        },
        ExprV::Index(t, idx) => {
            match sc_expr(*idx, si, env, brake, l) {
                Err(er) => Err(er),
                Ok((s_i, l1)) => {
                    match sc_expr(*t, si + 1, env, brake, l1) {
                        Err(er) => Err(er),
                        Ok((s_t, l2)) => Ok(
                            (
                                s_i + not_num_seq() + seq![
                                    InstrV::Mov(mem_bd(Reg::Rsp, -(si * 8)), rg(Reg::Rax)),
                                ] + s_t + not_tuple_seq() + seq![
                                    InstrV::Sub(rg(Reg::Rax), imv(1)),
                                    InstrV::Mov(rg(Reg::Rbx), mem_bd(Reg::Rsp, -(si * 8))),
                                    InstrV::Sar(rg(Reg::Rbx), imv(1)),
                                    InstrV::Add(rg(Reg::Rbx), imv(1)),
                                    InstrV::Mov(rg(Reg::Rax), mem_bis(Reg::Rax, Reg::Rbx, 8)),
                                ],
                                l2,
                            ),
                        ),
                    }
                },
            }
        },
        ExprV::TupleSet(t, idx, e1) => {
            match sc_expr(*idx, si, env, brake, l) {
                Err(er) => Err(er),
                Ok((s_i, l1)) => {
                    match sc_expr(*e1, si + 1, env, brake, l1) {
                        Err(er) => Err(er),
                        Ok((s_e, l2)) => {
                            match sc_expr(*t, si + 2, env, brake, l2) {
                                Err(er) => Err(er),
                                Ok((s_t, l3)) => Ok(
                                    (
                                        s_i + not_num_seq() + seq![
                                            InstrV::Mov(mem_bd(Reg::Rsp, -(si * 8)), rg(Reg::Rax)),
                                        ] + s_e + seq![
                                            InstrV::Mov(
                                                mem_bd(Reg::Rsp, -((si + 1) * 8)),
                                                rg(Reg::Rax),
                                            ),
                                        ] + s_t + not_tuple_seq() + seq![
                                            InstrV::Sub(rg(Reg::Rax), imv(1)),
                                            InstrV::Mov(rg(Reg::Rbx), mem_bd(Reg::Rsp, -(si * 8))),
                                            InstrV::Sar(rg(Reg::Rbx), imv(1)),
                                            InstrV::Add(rg(Reg::Rbx), imv(1)),
                                            InstrV::Mov(
                                                rg(Reg::Rcx),
                                                mem_bd(Reg::Rsp, -((si + 1) * 8)),
                                            ),
                                            InstrV::Mov(
                                                mem_bis(Reg::Rax, Reg::Rbx, 8),
                                                rg(Reg::Rcx),
                                            ),
                                            InstrV::Add(rg(Reg::Rax), imv(1)),
                                        ],
                                        l3,
                                    ),
                                ),
                            }
                        },
                    }
                },
            }
        },
        ExprV::TupleLen(t) => {
            match sc_expr(*t, si, env, brake, l) {
                Err(er) => Err(er),
                Ok((s_t, l1)) => Ok(
                    (
                        s_t + not_tuple_seq() + seq![
                            InstrV::Sub(rg(Reg::Rax), imv(1)),
                            InstrV::Mov(rg(Reg::Rax), mem_b(Reg::Rax)),
                        ],
                        l1,
                    ),
                ),
            }
        },
        ExprV::Call(name, args) => {
            let nro = si + args.len();
            match sc_args(args, nro + 1, nro, 0, env, brake, l) {
                Err(er) => Err(er),
                Ok((s1, l1)) => Ok(
                    (
                        s1 + seq![
                            InstrV::Mov(mem_bd(Reg::Rsp, -(si * 8)), rg(Reg::Rdi)),
                            InstrV::Sub(rg(Reg::Rsp), imv(nro * 8)),
                            InstrV::Call(name),
                            InstrV::Add(rg(Reg::Rsp), imv(nro * 8)),
                            InstrV::Mov(rg(Reg::Rdi), mem_bd(Reg::Rsp, -(si * 8))),
                        ],
                        l1,
                    ),
                ),
            }
        },
    }
}

/// What lowering a binding list emits: each right-hand side is lowered with
/// stack index `si + 1` and stored in the next slot, and the environment is
/// extended binding by binding.
pub open spec fn sc_bindings(
    bs: Seq<(Seq<char>, ExprV)>,
    si: int,
    slot: int,
    env: Map<Seq<char>, i64>,
    brake: Seq<char>,
    l: int,
) -> Result<(Seq<InstrV>, Map<Seq<char>, i64>, int), CompErrV>
    decreases bs, 0int,
{
    if bs.len() == 0 {
        Ok((Seq::empty(), env, l))
    } else {
        match sc_expr(bs[0].1, si + 1, env, brake, l) {
            Err(er) => Err(er),
            Ok((s1, l1)) => {
                let off = slot * 8;
                match sc_bindings(
                    bs.subrange(1, bs.len() as int),
                    si,
                    slot + 1,
                    env.insert(bs[0].0, off as i64),
                    brake,
                    l1,
                ) {
                    Err(er) => Err(er),
                    Ok((s2, env2, l2)) => Ok(
                        (
                            s1 + seq![InstrV::Mov(mem_bd(Reg::Rsp, -off), rg(Reg::Rax))] + s2,
                            env2,
                            l2,
                        ),
                    ),
                }
            },
        }
    }
}

/// What lowering a block's expressions emits: each in order, at the same
/// stack index.
pub open spec fn sc_seq(
    es: Seq<ExprV>,
    si: int,
    env: Map<Seq<char>, i64>,
    brake: Seq<char>,
    l: int,
) -> Result<(Seq<InstrV>, int), CompErrV>
    decreases es, 0int,
{
    if es.len() == 0 {
        Ok((Seq::empty(), l))
    } else {
        match sc_expr(es[0], si, env, brake, l) {
            Err(er) => Err(er),
            Ok((s1, l1)) => {
                match sc_seq(es.subrange(1, es.len() as int), si, env, brake, l1) {
                    Err(er) => Err(er),
                    Ok((s2, l2)) => Ok((s1 + s2, l2)),
                }
            },
        }
    }
}

/// What lowering the elements of a tuple emits: element at index `i` is
/// lowered with stack index `si + i` and stored in that slot.
pub open spec fn sc_elems(
    es: Seq<ExprV>,
    cur: int,
    env: Map<Seq<char>, i64>,
    brake: Seq<char>,
    l: int,
) -> Result<(Seq<InstrV>, int), CompErrV>
    decreases es, 0int,
{
    if es.len() == 0 {
        Ok((Seq::empty(), l))
    } else {
        match sc_expr(es[0], cur, env, brake, l) {
            Err(er) => Err(er),
            Ok((s1, l1)) => {
                match sc_elems(es.subrange(1, es.len() as int), cur + 1, env, brake, l1) {
                    Err(er) => Err(er),
                    Ok((s2, l2)) => Ok(
                        (
                            s1 + seq![InstrV::Mov(mem_bd(Reg::Rsp, -(cur * 8)), rg(Reg::Rax))]
                                + s2,
                            l2,
                        ),
                    ),
                }
            },
        }
    }
}

/// The moves of the saved tuple elements from their stack slots into the
/// heap words after the length word, for indices `i` up to `k`.
pub open spec fn tuple_moves(k: int, si: int, i: int) -> Seq<InstrV>
    decreases k - i,
{
    if i >= k {
        Seq::empty()
    } else {
        seq![
            InstrV::Mov(rg(Reg::Rax), mem_bd(Reg::Rsp, -((si + i) * 8))),
            InstrV::Mov(mem_bd(Reg::R15, (i + 1) * 8), rg(Reg::Rax)),
        ] + tuple_moves(k, si, i + 1)
    }
}

/// What lowering the arguments of a call emits: each is lowered with a
/// stack index past the whole argument region and stored at its slot below
/// the callee's stack pointer.
pub open spec fn sc_args(
    args: Seq<ExprV>,
    csi: int,
    nro: int,
    idx: int,
    env: Map<Seq<char>, i64>,
    brake: Seq<char>,
    l: int,
) -> Result<(Seq<InstrV>, int), CompErrV>
    decreases args, 0int,
{
    if args.len() == 0 {
        Ok((Seq::empty(), l))
    } else {
        match sc_expr(args[0], csi, env, brake, l) {
            Err(er) => Err(er),
            Ok((s1, l1)) => {
                match sc_args(
                    args.subrange(1, args.len() as int),
                    csi,
                    nro,
                    idx + 1,
                    env,
                    brake,
                    l1,
                ) {
                    Err(er) => Err(er),
                    Ok((s2, l2)) => Ok(
                        (
                            s1 + seq![InstrV::Mov(mem_bd(Reg::Rsp, (idx - nro) * 8), rg(Reg::Rax))]
                                + s2,
                            l2,
                        ),
                    ),
                }
            },
        }
    }
}

/// The parameter environment of a function body: parameter `i` lives at the
/// negative offset `-(i+1)*8`, so the callee reads it above its own stack
/// pointer.
pub open spec fn penv_acc(params: Seq<Seq<char>>, i: int, m: Map<Seq<char>, i64>) -> Map<
    Seq<char>,
    i64,
>
    decreases params.len() - i,
{
    if i < 0 || i >= params.len() {
        m
    } else {
        penv_acc(params, i + 1, m.insert(params[i], (-((i + 1) * 8)) as i64))
    }
}

/// What lowering one function definition emits: its label, its body entered
/// at stack index 2 with the parameter environment and no enclosing loop,
/// and a return.
pub open spec fn sc_fundef(d: FunDefV, l: int) -> Result<(Seq<InstrV>, int), CompErrV> {
    match sc_expr(d.body, 2, penv_acc(d.params, 0, Map::empty()), Seq::empty(), l) {
        Err(er) => Err(er),
        Ok((s_b, l1)) => Ok((seq![InstrV::Label(d.name)] + s_b + seq![InstrV::Ret], l1)),
    }
}

/// What lowering all the definitions emits, in order, threading the label
/// counter.
pub open spec fn sc_defs(ds: Seq<FunDefV>, l: int) -> Result<(Seq<InstrV>, int), CompErrV>
    decreases ds,
{
    if ds.len() == 0 {
        Ok((Seq::empty(), l))
    } else {
        match sc_fundef(ds[0], l) {
            Err(er) => Err(er),
            Ok((s1, l1)) => {
                match sc_defs(ds.subrange(1, ds.len() as int), l1) {
                    Err(er) => Err(er),
                    Ok((s2, l2)) => Ok((s1 + s2, l2)),
                }
            },
        }
    }
}

/// What compiling a whole program produces: the definitions' instructions
/// and the main expression's instructions, with one label counter threaded
/// through both, starting at zero.
pub open spec fn sc_program(p: ProgramV) -> Result<(Seq<InstrV>, Seq<InstrV>), CompErrV> {
    match sc_defs(p.defs, 0) {
        Err(er) => Err(er),
        Ok((d, l1)) => {
            match sc_expr(p.main, 2, Map::empty(), Seq::empty(), l1) {
                Err(er) => Err(er),
                Ok((m, _l2)) => Ok((d, m)),
            }
        },
    }
}

/// The final assembly text: the fixed frame around the error handler, the
/// definitions, and the main body.
pub open spec fn prog_text(p: ProgramV) -> Result<Seq<char>, CompErrV> {
    match sc_program(p) {
        Err(er) => Err(er),
        Ok((d, m)) => Ok(
            "\nsection .text\nglobal our_code_starts_here\next"@ + "ern snek_error\next"@
                + "ern snek_print\n"@ + instrs_str(err_handler_seq()) + instrs_str(d)
                + "our_code_starts_here:\nmov r15, rsi\n"@ + instrs_str(m) + "ret\n"@,
        ),
    }
}

} // verus!

verus! {

broadcast use
    crate::instr::lemma_iv_push,
    crate::instr::lemma_iv_add,
    crate::syntax::lemma_evs_len,
    crate::syntax::lemma_evs_index,
    crate::syntax::lemma_ebs_len,
    crate::syntax::lemma_ebs_index;

/// An executable lowering result matches its specification, given the final
/// label counter.
pub open spec fn cres(
    r: Result<Vec<Instr>, CompErr>,
    lfin: int,
    sp: Result<(Seq<InstrV>, int), CompErrV>,
) -> bool {
    match r {
        Ok(instrs) => sp matches Ok(x) && iv(instrs@) == x.0 && lfin == x.1,
        Err(e) => sp matches Err(x) && e@ == x,
    }
}

/// A fresh label `s_n`, advancing the counter.
pub fn new_label(l: &mut i64, s: &str) -> (r: String)
    requires
        0 <= *old(l) < 0x7FFF_FFFF_FFFF_FFFF,
    ensures
        *final(l) == *old(l) + 1,
        r@ == label_text(s@, *old(l) as int),
{
    let current = *l;
    *l = *l + 1;
    let mut out = String::from_str(s);
    out.append("_");
    let num = u64_to_string(current as u64);
    out.append(num.as_str());
    proof {
        assert(out@ =~= label_text(s@, current as int));
    }
    out
}

/// The instructions of the error handler block.
pub fn error_handler() -> (r: Vec<Instr>)
    ensures
        iv(r@) == err_handler_seq(),
{
    let v = vec![
        Instr::Label(String::from_str("snek_error_handler")),
        Instr::Mov(Arg::Reg(Reg::Rdi), Arg::Reg(Reg::Rbx)),
        Instr::Call(String::from_str("snek_error")),
    ];
    proof {
        assert(iv(v@) =~= err_handler_seq());
    }
    v
}

/// The guard raising code 1 when RAX and RCX hold differently-typed values.
pub fn error_rax_rcx_diff_type() -> (r: Vec<Instr>)
    ensures
        iv(r@) == diff_type_seq(),
{
    let v = vec![
        Instr::Mov(Arg::Reg(Reg::Rbx), Arg::Imm(1)),
        Instr::Xor(Arg::Reg(Reg::Rcx), Arg::Reg(Reg::Rax)),
        Instr::Test(Arg::Reg(Reg::Rcx), Arg::Imm(1)),
        Instr::Jne(String::from_str("snek_error_handler")),
    ];
    proof {
        assert(iv(v@) =~= diff_type_seq());
    }
    v
}

/// The guard raising code 2 when RAX does not hold a number.
pub fn error_rax_not_num() -> (r: Vec<Instr>)
    ensures
        iv(r@) == not_num_seq(),
{
    let v = vec![
        Instr::Mov(Arg::Reg(Reg::Rbx), Arg::Imm(2)),
        Instr::Test(Arg::Reg(Reg::Rax), Arg::Imm(1)),
        Instr::Jne(String::from_str("snek_error_handler")),
    ];
    proof {
        assert(iv(v@) =~= not_num_seq());
    }
    v
}

/// The guard raising code 3 after an overflowing operation.
pub fn error_overflow() -> (r: Vec<Instr>)
    ensures
        iv(r@) == overflow_seq(),
{
    let v = vec![
        Instr::Mov(Arg::Reg(Reg::Rbx), Arg::Imm(3)),
        Instr::Jo(String::from_str("snek_error_handler")),
    ];
    proof {
        assert(iv(v@) =~= overflow_seq());
    }
    v
}

/// The guard raising code 4 when RAX does not hold a tuple pointer.
pub fn error_rax_not_tuple() -> (r: Vec<Instr>)
    ensures
        iv(r@) == not_tuple_seq(),
{
    let v = vec![
        Instr::Mov(Arg::Reg(Reg::Rcx), Arg::Reg(Reg::Rax)),
        Instr::And(Arg::Reg(Reg::Rcx), Arg::Imm(3)),
        Instr::Cmp(Arg::Reg(Reg::Rcx), Arg::Imm(1)),
        Instr::Mov(Arg::Reg(Reg::Rbx), Arg::Imm(4)),
        Instr::Jne(String::from_str("snek_error_handler")),
    ];
    proof {
        assert(iv(v@) =~= not_tuple_seq());
    }
    v
}

} // verus!

verus! {

/// Lowering of one expression: a straight-line block leaving the value in
/// RAX.  `si` is the next free stack slot, `env` maps names to stack
/// offsets, `brake` is the innermost loop's exit label (empty outside any
/// loop), and `l` is the label counter.
#[verifier::loop_isolation(false)]
#[verifier::rlimit(100)]
pub fn compile_expr(
    e: &Expr,
    si: i64,
    env: &im::HashMap<String, i64>,
    brake: &String,
    l: &mut i64,
) -> (r: Result<Vec<Instr>, CompErr>)
    requires
        0 <= si,
        si + esize(e@) <= SIZE_LIMIT,
        0 <= *old(l),
        *old(l) + 2 * esize(e@) <= 4 * SIZE_LIMIT,
        env_ok(env_entries(*env)),
    ensures
        *old(l) <= *final(l) <= *old(l) + 2 * esize(e@),
        cres(
            r,
            *final(l) as int,
            sc_expr(e@, si as int, env_entries(*env), brake@, *old(l) as int),
        ),
    decreases esize(e@), 1int,
{
    let ghost env0 = env_entries(*env);
    let ghost l0 = *l as int;
    match e {
        Expr::Number(n) => {
            let n = *n;
            if NUM_MIN <= n && n <= NUM_MAX {
                let instrs = vec![Instr::Mov(Arg::Reg(Reg::Rax), Arg::Imm(n * 2))];
                proof {
                    assert(iv(instrs@) =~= seq![InstrV::Mov(rg(Reg::Rax), imv(2 * n))]);
                }
                Ok(instrs)
            } else {
                Err(CompErr::LiteralOverflow(n))
            }
        },
        Expr::Bool(b) => {
            let encoded = if *b {
                repr_true()
            } else {
                repr_false()
            };
            let instrs = vec![Instr::Mov(Arg::Reg(Reg::Rax), Arg::Imm(encoded))];
            proof {
                assert(iv(instrs@) =~= seq![
                    InstrV::Mov(
                        rg(Reg::Rax),
                        imv(
                            if *b {
                                7int
                            } else {
                                3int
                            },
                        ),
                    ),
                ]);
            }
            Ok(instrs)
        },
        Expr::Var(x) => {
            if crate::parser::str_eq_string(x, "input") {
                let instrs = vec![Instr::Mov(Arg::Reg(Reg::Rax), Arg::Reg(Reg::Rdi))];
                proof {
                    assert(iv(instrs@) =~= seq![InstrV::Mov(rg(Reg::Rax), rg(Reg::Rdi))]);
                }
                Ok(instrs)
            } else if env_contains(env, x) {
                match env_get(env, x) {
                    Some(off) => {
                        let noff: i64 = -off;
                        let instrs = vec![
                            Instr::Mov(Arg::Reg(Reg::Rax), Arg::Mem(maddr_bd(Reg::Rsp, noff))),
                        ];
                        proof {
                            assert(iv(instrs@) =~= seq![
                                InstrV::Mov(rg(Reg::Rax), mem_bd(Reg::Rsp, -(env0[x@] as int))),
                            ]);
                        }
                        Ok(instrs)
                    },
                    None => {
                        proof {
                            assert(false);
                        }
                        Err(CompErr::InvalidExpr)
                    },
                }
            } else {
                Err(CompErr::UnboundVar(x.clone()))
            }
        },
        Expr::Let(bs, body) => compile_let(bs, body, si, env, brake, l),
        Expr::UnOp(op, e1) => {
            let mut instrs = match compile_expr(&**e1, si, env, brake, l) {
                Ok(v2) => v2,
                Err(er) => {
                    return Err(er);
                },
            };
            let ghost s1v = iv(instrs@);
            match op {
                Op1::Add1 => {
                    let mut g = error_rax_not_num();
                    instrs.append(&mut g);
                    instrs.push(Instr::Add(Arg::Reg(Reg::Rax), Arg::Imm(2)));
                    let mut g2 = error_overflow();
                    instrs.append(&mut g2);
                    proof {
                        assert(iv(instrs@) =~= s1v + not_num_seq() + seq![
                            InstrV::Add(rg(Reg::Rax), imv(2)),
                        ] + overflow_seq());
                    }
                },
                Op1::Sub1 => {
                    let mut g = error_rax_not_num();
                    instrs.append(&mut g);
                    instrs.push(Instr::Sub(Arg::Reg(Reg::Rax), Arg::Imm(2)));
                    let mut g2 = error_overflow();
                    instrs.append(&mut g2);
                    proof {
                        assert(iv(instrs@) =~= s1v + not_num_seq() + seq![
                            InstrV::Sub(rg(Reg::Rax), imv(2)),
                        ] + overflow_seq());
                    }
                },
                Op1::IsNum => {
                    instrs.push(Instr::Test(Arg::Reg(Reg::Rax), Arg::Imm(1)));
                    instrs.push(Instr::Mov(Arg::Reg(Reg::Rax), Arg::Imm(repr_false())));
                    instrs.push(Instr::Mov(Arg::Reg(Reg::Rbx), Arg::Imm(repr_true())));
                    instrs.push(Instr::Cmove(Arg::Reg(Reg::Rax), Arg::Reg(Reg::Rbx)));
                    proof {
                        assert(iv(instrs@) =~= s1v + seq![
                            InstrV::Test(rg(Reg::Rax), imv(1)),
                            InstrV::Mov(rg(Reg::Rax), imv(3)),
                            InstrV::Mov(rg(Reg::Rbx), imv(7)),
                            InstrV::Cmove(rg(Reg::Rax), rg(Reg::Rbx)),
                        ]);
                    }
                },
                Op1::IsBool => {
                    instrs.push(Instr::Test(Arg::Reg(Reg::Rax), Arg::Imm(1)));
                    instrs.push(Instr::Mov(Arg::Reg(Reg::Rax), Arg::Imm(repr_true())));
                    instrs.push(Instr::Mov(Arg::Reg(Reg::Rbx), Arg::Imm(repr_false())));
                    instrs.push(Instr::Cmove(Arg::Reg(Reg::Rax), Arg::Reg(Reg::Rbx)));
                    proof {
                        assert(iv(instrs@) =~= s1v + seq![
                            InstrV::Test(rg(Reg::Rax), imv(1)),
                            InstrV::Mov(rg(Reg::Rax), imv(7)),
                            InstrV::Mov(rg(Reg::Rbx), imv(3)),
                            InstrV::Cmove(rg(Reg::Rax), rg(Reg::Rbx)),
                        ]);
                    }
                },
            }
            Ok(instrs)
        },
        Expr::BinOp(op, e1, e2) => compile_binop(*op, e1, e2, si, env, brake, l),
        Expr::If(c, t, f) => compile_if(c, t, f, si, env, brake, l),
        Expr::Loop(b) => {
            let start_label = new_label(l, "loop");
            let end_label = new_label(l, "loopend");
            let mut sb = match compile_expr(&**b, si, env, &end_label, l) {
                Ok(v2) => v2,
                Err(er) => {
                    return Err(er);
                },
            };
            let ghost sbv = iv(sb@);
            let mut instrs = vec![Instr::Label(start_label.clone())];
            instrs.append(&mut sb);
            instrs.push(Instr::Jmp(start_label));
            instrs.push(Instr::Label(end_label));
            proof {
                assert(iv(instrs@) =~= seq![InstrV::Label(label_text("loop"@, l0))] + sbv + seq![
                    InstrV::Jmp(label_text("loop"@, l0)),
                    InstrV::Label(label_text("loopend"@, l0 + 1)),
                ]);
            }
            Ok(instrs)
        },
        Expr::Break(b) => {
            if !brake.as_str().is_empty() {
                let mut instrs = match compile_expr(&**b, si, env, brake, l) {
                    Ok(v2) => v2,
                    Err(er) => {
                        return Err(er);
                    },
                };
                let ghost sbv = iv(instrs@);
                instrs.push(Instr::Jmp(brake.clone()));
                proof {
                    assert(iv(instrs@) =~= sbv + seq![InstrV::Jmp(brake@)]);
                }
                Ok(instrs)
            } else {
                Err(CompErr::BreakOutsideLoop)
            }
        },
        Expr::Assign(x, e1) => {
            if env_contains(env, x) {
                let off = match env_get(env, x) {
                    Some(off) => off,
                    None => {
                        proof {
                            assert(false);
                        }
                        0
                    },
                };
                let mut instrs = match compile_expr(&**e1, si, env, brake, l) {
                    Ok(v2) => v2,
                    Err(er) => {
                        return Err(er);
                    },
                };
                let ghost s1v = iv(instrs@);
                instrs.push(
                    Instr::Mov(Arg::Mem(maddr_bd(Reg::Rsp, -off)), Arg::Reg(Reg::Rax)),
                );
                proof {
                    assert(iv(instrs@) =~= s1v + seq![
                        InstrV::Mov(mem_bd(Reg::Rsp, -(env0[x@] as int)), rg(Reg::Rax)),
                    ]);
                }
                Ok(instrs)
            } else {
                Err(CompErr::UnboundVar(x.clone()))
            }
        },
        Expr::Block(es) => compile_block(es, si, env, brake, l),
        Expr::Print(e1) => {
            let mut instrs = match compile_expr(&**e1, si, env, brake, l) {
                Ok(v2) => v2,
                Err(er) => {
                    return Err(er);
                },
            };
            let ghost s1v = iv(instrs@);
            let index = if si % 2 == 0 {
                si
            } else {
                si + 1
            };
            let stack_offset: i64 = index * 8;
            instrs.push(
                Instr::Mov(Arg::Mem(maddr_bd(Reg::Rsp, -stack_offset)), Arg::Reg(Reg::Rdi)),
            );
            instrs.push(Instr::Mov(Arg::Reg(Reg::Rdi), Arg::Reg(Reg::Rax)));
            instrs.push(Instr::Sub(Arg::Reg(Reg::Rsp), Arg::Imm(stack_offset)));
            instrs.push(Instr::Call(String::from_str("snek_print")));
            instrs.push(Instr::Add(Arg::Reg(Reg::Rsp), Arg::Imm(stack_offset)));
            instrs.push(
                Instr::Mov(Arg::Reg(Reg::Rdi), Arg::Mem(maddr_bd(Reg::Rsp, -stack_offset))),
            );
            proof {
                let offi = stack_offset as int;
                assert(iv(instrs@) =~= s1v + seq![
                    InstrV::Mov(mem_bd(Reg::Rsp, -offi), rg(Reg::Rdi)),
                    InstrV::Mov(rg(Reg::Rdi), rg(Reg::Rax)),
                    InstrV::Sub(rg(Reg::Rsp), imv(offi)),
                    InstrV::Call("snek_print"@),
                    InstrV::Add(rg(Reg::Rsp), imv(offi)),
                    InstrV::Mov(rg(Reg::Rdi), mem_bd(Reg::Rsp, -offi)),
                ]);
            }
            Ok(instrs)
        },
        Expr::Tuple(es) => compile_tuple(es, si, env, brake, l),
        Expr::Index(t, idx) => compile_index(t, idx, si, env, brake, l),
        Expr::TupleSet(t, idx, e1) => compile_tuple_set(t, idx, e1, si, env, brake, l),
        Expr::TupleLen(t) => {
            let mut instrs = match compile_expr(&**t, si, env, brake, l) {
                Ok(v2) => v2,
                Err(er) => {
                    return Err(er);
                },
            };
            let ghost stvv = iv(instrs@);
            let mut g = error_rax_not_tuple();
            instrs.append(&mut g);
            instrs.push(Instr::Sub(Arg::Reg(Reg::Rax), Arg::Imm(1)));
            instrs.push(Instr::Mov(Arg::Reg(Reg::Rax), Arg::Mem(maddr_b(Reg::Rax))));
            proof {
                assert(iv(instrs@) =~= stvv + not_tuple_seq() + seq![
                    InstrV::Sub(rg(Reg::Rax), imv(1)),
                    InstrV::Mov(rg(Reg::Rax), mem_b(Reg::Rax)),
                ]);
            }
            Ok(instrs)
        },
        Expr::Call(fname, args) => compile_fun_call(fname, args, si, env, brake, l),
    }
}

} // verus!

verus! {

/// Lowering of a `let`: the bindings, then the body in the extended
/// environment at a stack index past the bindings' slots.
#[verifier::loop_isolation(false)]
#[verifier::rlimit(100)]
fn compile_let(
    bs: &Vec<(String, Expr)>,
    body: &Box<Expr>,
    si: i64,
    env: &im::HashMap<String, i64>,
    brake: &String,
    l: &mut i64,
) -> (r: Result<Vec<Instr>, CompErr>)
    requires
        0 <= si,
        si + 2 + esize_bindings(ebs(bs@)) + esize(ev(**body)) <= SIZE_LIMIT,
        0 <= *old(l),
        *old(l) + 2 * (esize_bindings(ebs(bs@)) + esize(ev(**body))) <= 4 * SIZE_LIMIT,
        env_ok(env_entries(*env)),
    ensures
        *old(l) <= *final(l) <= *old(l) + 2 * (esize_bindings(ebs(bs@)) + esize(ev(**body))),
        (match sc_bindings(
            ebs(bs@),
            si as int,
            si as int,
            env_entries(*env),
            brake@,
            *old(l) as int,
        ) {
            Err(er) => r matches Err(e2) && e2@ == er,
            Ok((s1, env2, l1)) => match sc_expr(
                ev(**body),
                si + ebs(bs@).len(),
                env2,
                brake@,
                l1,
            ) {
                Err(er) => r matches Err(e2) && e2@ == er,
                Ok((s2, l2)) => r matches Ok(vv) && iv(vv@) == s1 + s2 && *final(l) == l2,
            },
        }),
    decreases esize_bindings(ebs(bs@)) + esize(ev(**body)) + 1, 0int,
{
    let ghost env0 = env_entries(*env);
    let ghost l0 = *l as int;
    let ghost bsv = ebs(bs@);
    let ghost bodyv = ev(**body);
    proof {
        lemma_esize_bindings_nonneg(bsv);
    }
    let mut new_env = env_clone(env);
    let mut instrs: Vec<Instr> = Vec::new();
    let mut i: usize = 0;
    proof {
        assert(bsv.subrange(0, bsv.len() as int) =~= bsv);
        assert(iv(instrs@) =~= Seq::<InstrV>::empty());
        assert(forall|t: Seq<InstrV>| #[trigger] (iv(instrs@) + t) =~= t);
    }
    while i < bs.len()
        invariant
            i <= bs@.len(),
            bs@.len() == bsv.len(),
            env_ok(env_entries(new_env)),
            l0 <= *l,
            *l + 2 * esize_bindings(bsv.subrange(i as int, bsv.len() as int)) <= l0 + 2
                * esize_bindings(bsv),
            (match sc_bindings(
                bsv.subrange(i as int, bsv.len() as int),
                si as int,
                si + i,
                env_entries(new_env),
                brake@,
                *l as int,
            ) {
                Ok(x) => sc_bindings(bsv, si as int, si as int, env0, brake@, l0) == Ok::<
                    (Seq<InstrV>, Map<Seq<char>, i64>, int),
                    CompErrV,
                >((iv(instrs@) + x.0, x.1, x.2)),
                Err(er) => sc_bindings(bsv, si as int, si as int, env0, brake@, l0)
                    == Err::<(Seq<InstrV>, Map<Seq<char>, i64>, int), CompErrV>(er),
            }),
        decreases bs@.len() - i,
    {
        proof {
            assert(bsv.subrange(i as int, bsv.len() as int)[0] == bsv[i as int]);
            assert(bsv.subrange(i as int, bsv.len() as int).subrange(
                1,
                bsv.len() - i as int,
            ) =~= bsv.subrange(i as int + 1, bsv.len() as int));
            lemma_esize_bindings_index(bsv, i as int);
        }
        let b = &bs[i];
        let mut sub = match compile_expr(&b.1, si + 1, &new_env, brake, l) {
            Ok(v2) => v2,
            Err(er) => {
                return Err(er);
            },
        };
        let stack_offset: i64 = (si + i as i64) * 8;
        let ghost pre_iv = iv(instrs@);
        let ghost subv = iv(sub@);
        instrs.append(&mut sub);
        instrs.push(
            Instr::Mov(Arg::Mem(maddr_bd(Reg::Rsp, -stack_offset)), Arg::Reg(Reg::Rax)),
        );
        env_insert(&mut new_env, b.0.clone(), stack_offset);
        proof {
            let movv = InstrV::Mov(mem_bd(Reg::Rsp, -(stack_offset as int)), rg(Reg::Rax));
            assert(iv(instrs@) =~= pre_iv + subv + seq![movv]);
            assert(forall|t: Seq<InstrV>|
                pre_iv + ((subv + seq![movv]) + t) =~= #[trigger] (iv(instrs@) + t));
        }
        i = i + 1;
    }
    proof {
        assert(bsv.subrange(bsv.len() as int, bsv.len() as int) =~= Seq::<
            (Seq<char>, ExprV),
        >::empty());
        assert(iv(instrs@) + Seq::<InstrV>::empty() =~= iv(instrs@));
    }
    let mut b2 = match compile_expr(&**body, si + bs.len() as i64, &new_env, brake, l) {
        Ok(v2) => v2,
        Err(er) => {
            return Err(er);
        },
    };
    let ghost pre2 = iv(instrs@);
    let ghost b2v = iv(b2@);
    instrs.append(&mut b2);
    proof {
        assert(iv(instrs@) =~= pre2 + b2v);
    }
    Ok(instrs)
}

/// Lowering of a block: each expression in order at the same stack index.
#[verifier::loop_isolation(false)]
#[verifier::rlimit(100)]
fn compile_block(
    es: &Vec<Expr>,
    si: i64,
    env: &im::HashMap<String, i64>,
    brake: &String,
    l: &mut i64,
) -> (r: Result<Vec<Instr>, CompErr>)
    requires
        0 <= si,
        si + 2 + esize_list(evs(es@)) <= SIZE_LIMIT,
        0 <= *old(l),
        *old(l) + 2 * esize_list(evs(es@)) <= 4 * SIZE_LIMIT,
        env_ok(env_entries(*env)),
    ensures
        *old(l) <= *final(l) <= *old(l) + 2 * esize_list(evs(es@)),
        (match sc_seq(evs(es@), si as int, env_entries(*env), brake@, *old(l) as int) {
            Err(er) => r matches Err(e2) && e2@ == er,
            Ok((s1, l1)) => r matches Ok(vv) && iv(vv@) == s1 && *final(l) == l1,
        }),
    decreases esize_list(evs(es@)) + 1, 0int,
{
    let ghost env0 = env_entries(*env);
    let ghost l0 = *l as int;
    let ghost esv = evs(es@);
    let mut instrs: Vec<Instr> = Vec::new();
    let mut i: usize = 0;
    proof {
        lemma_esize_list_nonneg(esv);
        assert(esv.subrange(0, esv.len() as int) =~= esv);
        assert(iv(instrs@) =~= Seq::<InstrV>::empty());
        assert(forall|tl: Seq<InstrV>| #[trigger] (iv(instrs@) + tl) =~= tl);
    }
    while i < es.len()
        invariant
            i <= es@.len(),
            es@.len() == esv.len(),
            l0 <= *l,
            *l + 2 * esize_list(esv.subrange(i as int, esv.len() as int)) <= l0 + 2
                * esize_list(esv),
            (match sc_seq(
                esv.subrange(i as int, esv.len() as int),
                si as int,
                env0,
                brake@,
                *l as int,
            ) {
                Ok(x) => sc_seq(esv, si as int, env0, brake@, l0) == Ok::<
                    (Seq<InstrV>, int),
                    CompErrV,
                >((iv(instrs@) + x.0, x.1)),
                Err(er) => sc_seq(esv, si as int, env0, brake@, l0) == Err::<
                    (Seq<InstrV>, int),
                    CompErrV,
                >(er),
            }),
        decreases es@.len() - i,
    {
        proof {
            assert(esv.subrange(i as int, esv.len() as int)[0] == esv[i as int]);
            assert(esv.subrange(i as int, esv.len() as int).subrange(
                1,
                esv.len() - i as int,
            ) =~= esv.subrange(i as int + 1, esv.len() as int));
            lemma_esize_list_index(esv, i as int);
        }
        let mut sub = match compile_expr(&es[i], si, env, brake, l) {
            Ok(v2) => v2,
            Err(er) => {
                return Err(er);
            },
        };
        let ghost pre_iv = iv(instrs@);
        let ghost subv = iv(sub@);
        instrs.append(&mut sub);
        proof {
            assert(iv(instrs@) =~= pre_iv + subv);
            assert(forall|tl: Seq<InstrV>|
                pre_iv + (subv + tl) =~= #[trigger] (iv(instrs@) + tl));
        }
        i = i + 1;
    }
    proof {
        assert(esv.subrange(esv.len() as int, esv.len() as int) =~= Seq::<ExprV>::empty());
        assert(iv(instrs@) + Seq::<InstrV>::empty() =~= iv(instrs@));
    }
    Ok(instrs)
}

/// Lowering of a tuple: the elements into consecutive slots, then the
/// length word and the element words on the heap, then the tagged pointer.
#[verifier::loop_isolation(false)]
#[verifier::rlimit(100)]
fn compile_tuple(
    es: &Vec<Expr>,
    si: i64,
    env: &im::HashMap<String, i64>,
    brake: &String,
    l: &mut i64,
) -> (r: Result<Vec<Instr>, CompErr>)
    requires
        0 <= si,
        si + 2 + esize_list(evs(es@)) <= SIZE_LIMIT,
        0 <= *old(l),
        *old(l) + 2 * esize_list(evs(es@)) <= 4 * SIZE_LIMIT,
        env_ok(env_entries(*env)),
    ensures
        *old(l) <= *final(l) <= *old(l) + 2 * esize_list(evs(es@)),
        (match sc_elems(evs(es@), si as int, env_entries(*env), brake@, *old(l) as int) {
            Err(er) => r matches Err(e2) && e2@ == er,
            Ok((s1, l1)) => r matches Ok(vv) && iv(vv@) == s1 + seq![
                InstrV::Mov(rg(Reg::Rbx), imv(2 * evs(es@).len() as int)),
                InstrV::Mov(mem_b(Reg::R15), rg(Reg::Rbx)),
            ] + tuple_moves(evs(es@).len() as int, si as int, 0) + seq![
                InstrV::Mov(rg(Reg::Rax), rg(Reg::R15)),
                InstrV::Add(rg(Reg::Rax), imv(1)),
                InstrV::Add(rg(Reg::R15), imv((evs(es@).len() as int + 1) * 8)),
            ] && *final(l) == l1,
        }),
    decreases esize_list(evs(es@)) + 1, 0int,
{
    let ghost env0 = env_entries(*env);
    let ghost l0 = *l as int;
    let ghost esv = evs(es@);
    let size = es.len();
    let mut instrs: Vec<Instr> = Vec::new();
    let mut i: usize = 0;
    proof {
        lemma_esize_list_nonneg(esv);
        assert(esv.subrange(0, esv.len() as int) =~= esv);
        assert(iv(instrs@) =~= Seq::<InstrV>::empty());
        assert(forall|tl: Seq<InstrV>| #[trigger] (iv(instrs@) + tl) =~= tl);
    }
    while i < es.len()
        invariant
            i <= es@.len(),
            es@.len() == esv.len(),
            l0 <= *l,
            *l + 2 * esize_list(esv.subrange(i as int, esv.len() as int)) <= l0 + 2
                * esize_list(esv),
            (match sc_elems(
                esv.subrange(i as int, esv.len() as int),
                si + i,
                env0,
                brake@,
                *l as int,
            ) {
                Ok(x) => sc_elems(esv, si as int, env0, brake@, l0) == Ok::<
                    (Seq<InstrV>, int),
                    CompErrV,
                >((iv(instrs@) + x.0, x.1)),
                Err(er) => sc_elems(esv, si as int, env0, brake@, l0) == Err::<
                    (Seq<InstrV>, int),
                    CompErrV,
                >(er),
            }),
        decreases es@.len() - i,
    {
        proof {
            assert(esv.subrange(i as int, esv.len() as int)[0] == esv[i as int]);
            assert(esv.subrange(i as int, esv.len() as int).subrange(
                1,
                esv.len() - i as int,
            ) =~= esv.subrange(i as int + 1, esv.len() as int));
            lemma_esize_list_index(esv, i as int);
        }
        let current_si: i64 = si + i as i64;
        let mut sub = match compile_expr(&es[i], current_si, env, brake, l) {
            Ok(v2) => v2,
            Err(er) => {
                return Err(er);
            },
        };
        let ghost pre_iv = iv(instrs@);
        let ghost subv = iv(sub@);
        instrs.append(&mut sub);
        instrs.push(
            Instr::Mov(
                Arg::Mem(maddr_bd(Reg::Rsp, -(current_si * 8))),
                Arg::Reg(Reg::Rax),
            ),
        );
        proof {
            let movv = InstrV::Mov(
                mem_bd(Reg::Rsp, -((current_si * 8) as int)),
                rg(Reg::Rax),
            );
            assert(iv(instrs@) =~= pre_iv + subv + seq![movv]);
            assert(forall|tl: Seq<InstrV>|
                pre_iv + ((subv + seq![movv]) + tl) =~= #[trigger] (iv(instrs@) + tl));
        }
        i = i + 1;
    }
    proof {
        assert(esv.subrange(esv.len() as int, esv.len() as int) =~= Seq::<ExprV>::empty());
        assert(iv(instrs@) + Seq::<InstrV>::empty() =~= iv(instrs@));
    }
    let ghost s1v = iv(instrs@);
    instrs.push(Instr::Mov(Arg::Reg(Reg::Rbx), Arg::Imm((size as i64) * 2)));
    instrs.push(Instr::Mov(Arg::Mem(maddr_b(Reg::R15)), Arg::Reg(Reg::Rbx)));
    let ghost base = iv(instrs@);
    proof {
        assert(base =~= s1v + seq![
            InstrV::Mov(rg(Reg::Rbx), imv(2 * esv.len() as int)),
            InstrV::Mov(mem_b(Reg::R15), rg(Reg::Rbx)),
        ]);
    }
    let mut j: usize = 0;
    while j < size
        invariant
            j <= size,
            size == esv.len(),
            iv(instrs@) + tuple_moves(esv.len() as int, si as int, j as int) == base
                + tuple_moves(esv.len() as int, si as int, 0),
        decreases size - j,
    {
        let ghost pre_iv = iv(instrs@);
        instrs.push(
            Instr::Mov(
                Arg::Reg(Reg::Rax),
                Arg::Mem(maddr_bd(Reg::Rsp, -((si + j as i64) * 8))),
            ),
        );
        instrs.push(
            Instr::Mov(
                Arg::Mem(maddr_bd(Reg::R15, (j as i64 + 1) * 8)),
                Arg::Reg(Reg::Rax),
            ),
        );
        proof {
            let m1 = InstrV::Mov(
                rg(Reg::Rax),
                mem_bd(Reg::Rsp, -(((si + j as i64) * 8) as int)),
            );
            let m2 = InstrV::Mov(
                mem_bd(Reg::R15, ((j as i64 + 1) * 8) as int),
                rg(Reg::Rax),
            );
            assert(iv(instrs@) =~= pre_iv + seq![m1, m2]);
            assert(tuple_moves(esv.len() as int, si as int, j as int) == seq![m1, m2]
                + tuple_moves(esv.len() as int, si as int, j + 1));
            assert(pre_iv + (seq![m1, m2] + tuple_moves(
                esv.len() as int,
                si as int,
                j + 1,
            )) =~= iv(instrs@) + tuple_moves(esv.len() as int, si as int, j + 1));
        }
        j = j + 1;
    }
    proof {
        assert(tuple_moves(esv.len() as int, si as int, esv.len() as int) =~= Seq::<
            InstrV,
        >::empty());
        assert(iv(instrs@) + Seq::<InstrV>::empty() =~= iv(instrs@));
    }
    let ghost s2v = iv(instrs@);
    instrs.push(Instr::Mov(Arg::Reg(Reg::Rax), Arg::Reg(Reg::R15)));
    instrs.push(Instr::Add(Arg::Reg(Reg::Rax), Arg::Imm(1)));
    instrs.push(Instr::Add(Arg::Reg(Reg::R15), Arg::Imm((size as i64 + 1) * 8)));
    proof {
        assert(iv(instrs@) =~= s2v + seq![
            InstrV::Mov(rg(Reg::Rax), rg(Reg::R15)),
            InstrV::Add(rg(Reg::Rax), imv(1)),
            InstrV::Add(rg(Reg::R15), imv((esv.len() as int + 1) * 8)),
        ]);
        assert(iv(instrs@) =~= s1v + seq![
            InstrV::Mov(rg(Reg::Rbx), imv(2 * esv.len() as int)),
            InstrV::Mov(mem_b(Reg::R15), rg(Reg::Rbx)),
        ] + tuple_moves(esv.len() as int, si as int, 0) + seq![
            InstrV::Mov(rg(Reg::Rax), rg(Reg::R15)),
            InstrV::Add(rg(Reg::Rax), imv(1)),
            InstrV::Add(rg(Reg::R15), imv((esv.len() as int + 1) * 8)),
        ]);
    }
    Ok(instrs)
}

/// Lowering of a call: the arguments into the slots below the callee's
/// stack pointer, then the pointer adjustment around the call, saving the
/// program argument register across it.
#[verifier::loop_isolation(false)]
#[verifier::rlimit(100)]
fn compile_fun_call(
    fname: &String,
    args: &Vec<Expr>,
    si: i64,
    env: &im::HashMap<String, i64>,
    brake: &String,
    l: &mut i64,
) -> (r: Result<Vec<Instr>, CompErr>)
    requires
        0 <= si,
        si + 2 + esize_list(evs(args@)) <= SIZE_LIMIT,
        0 <= *old(l),
        *old(l) + 2 * esize_list(evs(args@)) <= 4 * SIZE_LIMIT,
        env_ok(env_entries(*env)),
    ensures
        *old(l) <= *final(l) <= *old(l) + 2 * esize_list(evs(args@)),
        (match sc_args(
            evs(args@),
            si + evs(args@).len() + 1,
            si + evs(args@).len(),
            0,
            env_entries(*env),
            brake@,
            *old(l) as int,
        ) {
            Err(er) => r matches Err(e2) && e2@ == er,
            Ok((s1, l1)) => r matches Ok(vv) && iv(vv@) == s1 + seq![
                InstrV::Mov(mem_bd(Reg::Rsp, -((si * 8) as int)), rg(Reg::Rdi)),
                InstrV::Sub(rg(Reg::Rsp), imv((si + evs(args@).len()) * 8)),
                InstrV::Call(fname@),
                InstrV::Add(rg(Reg::Rsp), imv((si + evs(args@).len()) * 8)),
                InstrV::Mov(rg(Reg::Rdi), mem_bd(Reg::Rsp, -((si * 8) as int))),
            ] && *final(l) == l1,
        }),
    decreases esize_list(evs(args@)) + 1, 0int,
{
    let ghost env0 = env_entries(*env);
    let ghost l0 = *l as int;
    let ghost argv = evs(args@);
    let n_args = args.len();
    proof {
        lemma_esize_list_nonneg(argv);
    }
    let new_rsp_offset: i64 = si + n_args as i64;
    let mut instrs: Vec<Instr> = Vec::new();
    let mut i: usize = 0;
    proof {
        assert(argv.subrange(0, argv.len() as int) =~= argv);
        assert(iv(instrs@) =~= Seq::<InstrV>::empty());
        assert(forall|tl: Seq<InstrV>| #[trigger] (iv(instrs@) + tl) =~= tl);
    }
    while i < args.len()
        invariant
            i <= args@.len(),
            args@.len() == argv.len(),
            n_args == args@.len(),
            new_rsp_offset == si + argv.len(),
            l0 <= *l,
            *l + 2 * esize_list(argv.subrange(i as int, argv.len() as int)) <= l0 + 2
                * esize_list(argv),
            (match sc_args(
                argv.subrange(i as int, argv.len() as int),
                new_rsp_offset as int + 1,
                new_rsp_offset as int,
                i as int,
                env0,
                brake@,
                *l as int,
            ) {
                Ok(x) => sc_args(
                    argv,
                    new_rsp_offset as int + 1,
                    new_rsp_offset as int,
                    0,
                    env0,
                    brake@,
                    l0,
                ) == Ok::<(Seq<InstrV>, int), CompErrV>((iv(instrs@) + x.0, x.1)),
                Err(er) => sc_args(
                    argv,
                    new_rsp_offset as int + 1,
                    new_rsp_offset as int,
                    0,
                    env0,
                    brake@,
                    l0,
                ) == Err::<(Seq<InstrV>, int), CompErrV>(er),
            }),
        decreases args@.len() - i,
    {
        proof {
            assert(argv.subrange(i as int, argv.len() as int)[0] == argv[i as int]);
            assert(argv.subrange(i as int, argv.len() as int).subrange(
                1,
                argv.len() - i as int,
            ) =~= argv.subrange(i as int + 1, argv.len() as int));
            lemma_esize_list_index(argv, i as int);
        }
        let mut sub = match compile_expr(&args[i], new_rsp_offset + 1, env, brake, l) {
            Ok(v2) => v2,
            Err(er) => {
                return Err(er);
            },
        };
        let ghost pre_iv = iv(instrs@);
        let ghost subv = iv(sub@);
        instrs.append(&mut sub);
        instrs.push(
            Instr::Mov(
                Arg::Mem(maddr_bd(Reg::Rsp, (i as i64 - new_rsp_offset) * 8)),
                Arg::Reg(Reg::Rax),
            ),
        );
        proof {
            let movv = InstrV::Mov(
                mem_bd(Reg::Rsp, ((i as i64 - new_rsp_offset) * 8) as int),
                rg(Reg::Rax),
            );
            assert(iv(instrs@) =~= pre_iv + subv + seq![movv]);
            assert(forall|tl: Seq<InstrV>|
                pre_iv + ((subv + seq![movv]) + tl) =~= #[trigger] (iv(instrs@) + tl));
        }
        i = i + 1;
    }
    proof {
        assert(argv.subrange(argv.len() as int, argv.len() as int) =~= Seq::<ExprV>::empty());
        assert(iv(instrs@) + Seq::<InstrV>::empty() =~= iv(instrs@));
    }
    let ghost s1v = iv(instrs@);
    let stack_offset: i64 = si * 8;
    instrs.push(Instr::Mov(Arg::Mem(maddr_bd(Reg::Rsp, -stack_offset)), Arg::Reg(Reg::Rdi)));
    instrs.push(Instr::Sub(Arg::Reg(Reg::Rsp), Arg::Imm(new_rsp_offset * 8)));
    instrs.push(Instr::Call(fname.clone()));
    instrs.push(Instr::Add(Arg::Reg(Reg::Rsp), Arg::Imm(new_rsp_offset * 8)));
    instrs.push(Instr::Mov(Arg::Reg(Reg::Rdi), Arg::Mem(maddr_bd(Reg::Rsp, -stack_offset))));
    proof {
        let offi = stack_offset as int;
        let nro = new_rsp_offset as int;
        assert(iv(instrs@) =~= s1v + seq![
            InstrV::Mov(mem_bd(Reg::Rsp, -offi), rg(Reg::Rdi)),
            InstrV::Sub(rg(Reg::Rsp), imv(nro * 8)),
            InstrV::Call(fname@),
            InstrV::Add(rg(Reg::Rsp), imv(nro * 8)),
            InstrV::Mov(rg(Reg::Rdi), mem_bd(Reg::Rsp, -offi)),
        ]);
    }
    Ok(instrs)
}

} // verus!

verus! {

/// Lowering of a binary operation.
#[verifier::loop_isolation(false)]
#[verifier::rlimit(100)]
fn compile_binop(
    op: Op2,
    e1: &Box<Expr>,
    e2: &Box<Expr>,
    si: i64,
    env: &im::HashMap<String, i64>,
    brake: &String,
    l: &mut i64,
) -> (r: Result<Vec<Instr>, CompErr>)
    requires
        0 <= si,
        si + esize(ExprV::BinOp(op, Box::new(ev(**e1)), Box::new(ev(**e2)))) <= SIZE_LIMIT,
        0 <= *old(l),
        *old(l) + 2 * esize(ExprV::BinOp(op, Box::new(ev(**e1)), Box::new(ev(**e2)))) <= 4
            * SIZE_LIMIT,
        env_ok(env_entries(*env)),
    ensures
        *old(l) <= *final(l) <= *old(l) + 2 * esize(
            ExprV::BinOp(op, Box::new(ev(**e1)), Box::new(ev(**e2))),
        ),
        cres(
            r,
            *final(l) as int,
            sc_expr(
                ExprV::BinOp(op, Box::new(ev(**e1)), Box::new(ev(**e2))),
                si as int,
                env_entries(*env),
                brake@,
                *old(l) as int,
            ),
        ),
    decreases esize(ExprV::BinOp(op, Box::new(ev(**e1)), Box::new(ev(**e2)))), 0int,
{
    let ghost env0 = env_entries(*env);
    let ghost l0 = *l as int;
    let mut instrs = match compile_expr(&**e1, si, env, brake, l) {
        Ok(v2) => v2,
        Err(er) => {
            return Err(er);
        },
    };
    let ghost s1v = iv(instrs@);
    let stack_offset: i64 = si * 8;
    let is_eq = match op {
        Op2::Equal => true,
        _ => false,
    };
    if is_eq {
        instrs.push(
            Instr::Mov(Arg::Mem(maddr_bd(Reg::Rsp, -stack_offset)), Arg::Reg(Reg::Rax)),
        );
        let mut s2 = match compile_expr(&**e2, si + 1, env, brake, l) {
            Ok(v2) => v2,
            Err(er) => {
                return Err(er);
            },
        };
        let ghost s2v = iv(s2@);
        instrs.append(&mut s2);
        instrs.push(
            Instr::Mov(Arg::Reg(Reg::Rcx), Arg::Mem(maddr_bd(Reg::Rsp, -stack_offset))),
        );
        let mut g = error_rax_rcx_diff_type();
        instrs.append(&mut g);
        instrs.push(
            Instr::Cmp(Arg::Reg(Reg::Rax), Arg::Mem(maddr_bd(Reg::Rsp, -stack_offset))),
        );
        instrs.push(Instr::Mov(Arg::Reg(Reg::Rax), Arg::Imm(repr_false())));
        instrs.push(Instr::Mov(Arg::Reg(Reg::Rbx), Arg::Imm(repr_true())));
        instrs.push(Instr::Cmove(Arg::Reg(Reg::Rax), Arg::Reg(Reg::Rbx)));
        proof {
            let offi = (si * 8) as int;
            assert(iv(instrs@) =~= s1v + seq![
                InstrV::Mov(mem_bd(Reg::Rsp, -offi), rg(Reg::Rax)),
            ] + s2v + seq![InstrV::Mov(rg(Reg::Rcx), mem_bd(Reg::Rsp, -offi))]
                + diff_type_seq() + seq![
                InstrV::Cmp(rg(Reg::Rax), mem_bd(Reg::Rsp, -offi)),
                InstrV::Mov(rg(Reg::Rax), imv(3)),
                InstrV::Mov(rg(Reg::Rbx), imv(7)),
                InstrV::Cmove(rg(Reg::Rax), rg(Reg::Rbx)),
            ]);
        }
        Ok(instrs)
    } else {
        let mut g = error_rax_not_num();
        instrs.append(&mut g);
        instrs.push(
            Instr::Mov(Arg::Mem(maddr_bd(Reg::Rsp, -stack_offset)), Arg::Reg(Reg::Rax)),
        );
        let mut s2 = match compile_expr(&**e2, si + 1, env, brake, l) {
            Ok(v2) => v2,
            Err(er) => {
                return Err(er);
            },
        };
        let ghost s2v = iv(s2@);
        instrs.append(&mut s2);
        let mut g2 = error_rax_not_num();
        instrs.append(&mut g2);
        let ghost head = s1v + not_num_seq() + seq![
            InstrV::Mov(mem_bd(Reg::Rsp, -((si * 8) as int)), rg(Reg::Rax)),
        ] + s2v + not_num_seq();
        proof {
            assert(iv(instrs@) =~= head);
        }
        match op {
            Op2::Plus => {
                instrs.push(
                    Instr::Add(
                        Arg::Reg(Reg::Rax),
                        Arg::Mem(maddr_bd(Reg::Rsp, -stack_offset)),
                    ),
                );
                let mut g3 = error_overflow();
                instrs.append(&mut g3);
            },
            Op2::Minus => {
                instrs.push(
                    Instr::Sub(
                        Arg::Mem(maddr_bd(Reg::Rsp, -stack_offset)),
                        Arg::Reg(Reg::Rax),
                    ),
                );
                let mut g3 = error_overflow();
                instrs.append(&mut g3);
                instrs.push(
                    Instr::Mov(
                        Arg::Reg(Reg::Rax),
                        Arg::Mem(maddr_bd(Reg::Rsp, -stack_offset)),
                    ),
                );
            },
            Op2::Times => {
                instrs.push(Instr::Sar(Arg::Reg(Reg::Rax), Arg::Imm(1)));
                instrs.push(
                    Instr::Imul(
                        Arg::Reg(Reg::Rax),
                        Arg::Mem(maddr_bd(Reg::Rsp, -stack_offset)),
                    ),
                );
                let mut g3 = error_overflow();
                instrs.append(&mut g3);
            },
            Op2::Equal => {
                proof {
                    assert(false);
                }
            },
            _ => {
                instrs.push(
                    Instr::Cmp(
                        Arg::Mem(maddr_bd(Reg::Rsp, -stack_offset)),
                        Arg::Reg(Reg::Rax),
                    ),
                );
                instrs.push(Instr::Mov(Arg::Reg(Reg::Rbx), Arg::Imm(repr_true())));
                instrs.push(Instr::Mov(Arg::Reg(Reg::Rax), Arg::Imm(repr_false())));
                match op {
                    Op2::Less => instrs.push(
                        Instr::Cmovl(Arg::Reg(Reg::Rax), Arg::Reg(Reg::Rbx)),
                    ),
                    Op2::LessEqual => instrs.push(
                        Instr::Cmovle(Arg::Reg(Reg::Rax), Arg::Reg(Reg::Rbx)),
                    ),
                    Op2::Greater => instrs.push(
                        Instr::Cmovg(Arg::Reg(Reg::Rax), Arg::Reg(Reg::Rbx)),
                    ),
                    Op2::GreaterEqual => instrs.push(
                        Instr::Cmovge(Arg::Reg(Reg::Rax), Arg::Reg(Reg::Rbx)),
                    ),
                    _ => {
                        proof {
                            assert(false);
                        }
                    },
                }
            },
        }
        proof {
            assert(iv(instrs@) =~= head + op_tail(op, (si * 8) as int));
        }
        Ok(instrs)
    }
}

/// Lowering of a conditional.
#[verifier::loop_isolation(false)]
#[verifier::rlimit(100)]
fn compile_if(
    c: &Box<Expr>,
    t: &Box<Expr>,
    f: &Box<Expr>,
    si: i64,
    env: &im::HashMap<String, i64>,
    brake: &String,
    l: &mut i64,
) -> (r: Result<Vec<Instr>, CompErr>)
    requires
        0 <= si,
        si + esize(ExprV::If(Box::new(ev(**c)), Box::new(ev(**t)), Box::new(ev(**f))))
            <= SIZE_LIMIT,
        0 <= *old(l),
        *old(l) + 2 * esize(ExprV::If(Box::new(ev(**c)), Box::new(ev(**t)), Box::new(ev(**f))))
            <= 4 * SIZE_LIMIT,
        env_ok(env_entries(*env)),
    ensures
        *old(l) <= *final(l) <= *old(l) + 2 * esize(
            ExprV::If(Box::new(ev(**c)), Box::new(ev(**t)), Box::new(ev(**f))),
        ),
        cres(
            r,
            *final(l) as int,
            sc_expr(
                ExprV::If(Box::new(ev(**c)), Box::new(ev(**t)), Box::new(ev(**f))),
                si as int,
                env_entries(*env),
                brake@,
                *old(l) as int,
            ),
        ),
    decreases esize(ExprV::If(Box::new(ev(**c)), Box::new(ev(**t)), Box::new(ev(**f)))), 0int,
{
    let ghost env0 = env_entries(*env);
    let ghost l0 = *l as int;
    let else_label = new_label(l, "ifelse");
    let end_label = new_label(l, "ifend");
    let mut instrs = match compile_expr(&**c, si, env, brake, l) {
        Ok(v2) => v2,
        Err(er) => {
            return Err(er);
        },
    };
    let ghost scv = iv(instrs@);
    instrs.push(Instr::Cmp(Arg::Reg(Reg::Rax), Arg::Imm(repr_false())));
    instrs.push(Instr::Je(else_label.clone()));
    let mut st = match compile_expr(&**t, si, env, brake, l) {
        Ok(v2) => v2,
        Err(er) => {
            return Err(er);
        },
    };
    let ghost stv = iv(st@);
    instrs.append(&mut st);
    instrs.push(Instr::Jmp(end_label.clone()));
    instrs.push(Instr::Label(else_label.clone()));
    let mut sf = match compile_expr(&**f, si, env, brake, l) {
        Ok(v2) => v2,
        Err(er) => {
            return Err(er);
        },
    };
    let ghost sfv = iv(sf@);
    instrs.append(&mut sf);
    instrs.push(Instr::Label(end_label));
    proof {
        assert(iv(instrs@) =~= scv + seq![
            InstrV::Cmp(rg(Reg::Rax), imv(3)),
            InstrV::Je(label_text("ifelse"@, l0)),
        ] + stv + seq![
            InstrV::Jmp(label_text("ifend"@, l0 + 1)),
            InstrV::Label(label_text("ifelse"@, l0)),
        ] + sfv + seq![InstrV::Label(label_text("ifend"@, l0 + 1))]);
    }
    Ok(instrs)
}

/// Lowering of a tuple element write.
#[verifier::loop_isolation(false)]
#[verifier::rlimit(100)]
fn compile_tuple_set(
    t: &Box<Expr>,
    idx: &Box<Expr>,
    e1: &Box<Expr>,
    si: i64,
    env: &im::HashMap<String, i64>,
    brake: &String,
    l: &mut i64,
) -> (r: Result<Vec<Instr>, CompErr>)
    requires
        0 <= si,
        si + esize(ExprV::TupleSet(Box::new(ev(**t)), Box::new(ev(**idx)), Box::new(ev(**e1))))
            <= SIZE_LIMIT,
        0 <= *old(l),
        *old(l) + 2 * esize(
            ExprV::TupleSet(Box::new(ev(**t)), Box::new(ev(**idx)), Box::new(ev(**e1))),
        ) <= 4 * SIZE_LIMIT,
        env_ok(env_entries(*env)),
    ensures
        *old(l) <= *final(l) <= *old(l) + 2 * esize(
            ExprV::TupleSet(Box::new(ev(**t)), Box::new(ev(**idx)), Box::new(ev(**e1))),
        ),
        cres(
            r,
            *final(l) as int,
            sc_expr(
                ExprV::TupleSet(Box::new(ev(**t)), Box::new(ev(**idx)), Box::new(ev(**e1))),
                si as int,
                env_entries(*env),
                brake@,
                *old(l) as int,
            ),
        ),
    decreases esize(
        ExprV::TupleSet(Box::new(ev(**t)), Box::new(ev(**idx)), Box::new(ev(**e1))),
    ), 0int,
{
    let ghost env0 = env_entries(*env);
    let ghost l0 = *l as int;
    let mut instrs = match compile_expr(&**idx, si, env, brake, l) {
        Ok(v2) => v2,
        Err(er) => {
            return Err(er);
        },
    };
    let ghost siv = iv(instrs@);
    let mut g = error_rax_not_num();
    instrs.append(&mut g);
    let off0: i64 = si * 8;
    let off1: i64 = (si + 1) * 8;
    instrs.push(Instr::Mov(Arg::Mem(maddr_bd(Reg::Rsp, -off0)), Arg::Reg(Reg::Rax)));
    let mut se = match compile_expr(&**e1, si + 1, env, brake, l) {
        Ok(v2) => v2,
        Err(er) => {
            return Err(er);
        },
    };
    let ghost sev = iv(se@);
    instrs.append(&mut se);
    instrs.push(Instr::Mov(Arg::Mem(maddr_bd(Reg::Rsp, -off1)), Arg::Reg(Reg::Rax)));
    let mut st = match compile_expr(&**t, si + 2, env, brake, l) {
        Ok(v2) => v2,
        Err(er) => {
            return Err(er);
        },
    };
    let ghost stvv = iv(st@);
    instrs.append(&mut st);
    let mut g2 = error_rax_not_tuple();
    instrs.append(&mut g2);
    instrs.push(Instr::Sub(Arg::Reg(Reg::Rax), Arg::Imm(1)));
    instrs.push(Instr::Mov(Arg::Reg(Reg::Rbx), Arg::Mem(maddr_bd(Reg::Rsp, -off0))));
    instrs.push(Instr::Sar(Arg::Reg(Reg::Rbx), Arg::Imm(1)));
    instrs.push(Instr::Add(Arg::Reg(Reg::Rbx), Arg::Imm(1)));
    instrs.push(Instr::Mov(Arg::Reg(Reg::Rcx), Arg::Mem(maddr_bd(Reg::Rsp, -off1))));
    instrs.push(
        Instr::Mov(Arg::Mem(maddr_bisd(Reg::Rax, Reg::Rbx, 8, 0)), Arg::Reg(Reg::Rcx)),
    );
    instrs.push(Instr::Add(Arg::Reg(Reg::Rax), Arg::Imm(1)));
    proof {
        let o0 = off0 as int;
        let o1 = off1 as int;
        assert(iv(instrs@) =~= siv + not_num_seq() + seq![
            InstrV::Mov(mem_bd(Reg::Rsp, -o0), rg(Reg::Rax)),
        ] + sev + seq![InstrV::Mov(mem_bd(Reg::Rsp, -o1), rg(Reg::Rax))] + stvv
            + not_tuple_seq() + seq![
            InstrV::Sub(rg(Reg::Rax), imv(1)),
            InstrV::Mov(rg(Reg::Rbx), mem_bd(Reg::Rsp, -o0)),
            InstrV::Sar(rg(Reg::Rbx), imv(1)),
            InstrV::Add(rg(Reg::Rbx), imv(1)),
            InstrV::Mov(rg(Reg::Rcx), mem_bd(Reg::Rsp, -o1)),
            InstrV::Mov(mem_bis(Reg::Rax, Reg::Rbx, 8), rg(Reg::Rcx)),
            InstrV::Add(rg(Reg::Rax), imv(1)),
        ]);
    }
    Ok(instrs)
}

/// Lowering of a tuple element read.
#[verifier::loop_isolation(false)]
#[verifier::rlimit(100)]
fn compile_index(
    t: &Box<Expr>,
    idx: &Box<Expr>,
    si: i64,
    env: &im::HashMap<String, i64>,
    brake: &String,
    l: &mut i64,
) -> (r: Result<Vec<Instr>, CompErr>)
    requires
        0 <= si,
        si + esize(ExprV::Index(Box::new(ev(**t)), Box::new(ev(**idx)))) <= SIZE_LIMIT,
        0 <= *old(l),
        *old(l) + 2 * esize(ExprV::Index(Box::new(ev(**t)), Box::new(ev(**idx)))) <= 4
            * SIZE_LIMIT,
        env_ok(env_entries(*env)),
    ensures
        *old(l) <= *final(l) <= *old(l) + 2 * esize(
            ExprV::Index(Box::new(ev(**t)), Box::new(ev(**idx))),
        ),
        cres(
            r,
            *final(l) as int,
            sc_expr(
                ExprV::Index(Box::new(ev(**t)), Box::new(ev(**idx))),
                si as int,
                env_entries(*env),
                brake@,
                *old(l) as int,
            ),
        ),
    decreases esize(ExprV::Index(Box::new(ev(**t)), Box::new(ev(**idx)))), 0int,
{
    let ghost env0 = env_entries(*env);
    let ghost l0 = *l as int;
    let mut instrs = match compile_expr(&**idx, si, env, brake, l) {
        Ok(v2) => v2,
        Err(er) => {
            return Err(er);
        },
    };
    let ghost siv = iv(instrs@);
    let mut g = error_rax_not_num();
    instrs.append(&mut g);
    let stack_offset: i64 = si * 8;
    instrs.push(
        Instr::Mov(Arg::Mem(maddr_bd(Reg::Rsp, -stack_offset)), Arg::Reg(Reg::Rax)),
    );
    let mut stv = match compile_expr(&**t, si + 1, env, brake, l) {
        Ok(v2) => v2,
        Err(er) => {
            return Err(er);
        },
    };
    let ghost stvv = iv(stv@);
    instrs.append(&mut stv);
    let mut g2 = error_rax_not_tuple();
    instrs.append(&mut g2);
    instrs.push(Instr::Sub(Arg::Reg(Reg::Rax), Arg::Imm(1)));
    instrs.push(
        Instr::Mov(Arg::Reg(Reg::Rbx), Arg::Mem(maddr_bd(Reg::Rsp, -stack_offset))),
    );
    instrs.push(Instr::Sar(Arg::Reg(Reg::Rbx), Arg::Imm(1)));
    instrs.push(Instr::Add(Arg::Reg(Reg::Rbx), Arg::Imm(1)));
    instrs.push(
        Instr::Mov(Arg::Reg(Reg::Rax), Arg::Mem(maddr_bisd(Reg::Rax, Reg::Rbx, 8, 0))),
    );
    proof {
        let offi = stack_offset as int;
        assert(iv(instrs@) =~= siv + not_num_seq() + seq![
            InstrV::Mov(mem_bd(Reg::Rsp, -offi), rg(Reg::Rax)),
        ] + stvv + not_tuple_seq() + seq![
            InstrV::Sub(rg(Reg::Rax), imv(1)),
            InstrV::Mov(rg(Reg::Rbx), mem_bd(Reg::Rsp, -offi)),
            InstrV::Sar(rg(Reg::Rbx), imv(1)),
            InstrV::Add(rg(Reg::Rbx), imv(1)),
            InstrV::Mov(rg(Reg::Rax), mem_bis(Reg::Rax, Reg::Rbx, 8)),
        ]);
    }
    Ok(instrs)
}

} // verus!

verus! {

/// Lowering of one function definition: its label, then the body entered at
/// stack index 2 with the parameters at negative offsets, then a return.
#[verifier::loop_isolation(false)]
pub fn compile_fundef(def: &FunDef, labels: &mut i64) -> (r: Result<Vec<Instr>, CompErr>)
    requires
        fun_size(def@) <= SIZE_LIMIT,
        0 <= *old(labels),
        *old(labels) + 2 * esize(def@.body) <= 4 * SIZE_LIMIT,
    ensures
        *old(labels) <= *final(labels) <= *old(labels) + 2 * esize(def@.body),
        (match sc_fundef(def@, *old(labels) as int) {
            Err(er) => r matches Err(e2) && e2@ == er,
            Ok((s1, l1)) => r matches Ok(vv) && iv(vv@) == s1 && *final(labels) == l1,
        }),
{
    let ghost pv = def@.params;
    let mut env = env_new();
    let mut i: usize = 0;
    proof {
        assert(env_entries(env) =~= Map::<Seq<char>, i64>::empty());
    }
    while i < def.params.len()
        invariant
            i <= def.params@.len(),
            def.params@.len() == pv.len(),
            env_ok(env_entries(env)),
            penv_acc(pv, i as int, env_entries(env)) == penv_acc(pv, 0, Map::empty()),
        decreases def.params@.len() - i,
    {
        let off: i64 = -((i as i64 + 1) * 8);
        let ghost pre = env_entries(env);
        env_insert(&mut env, def.params[i].clone(), off);
        proof {
            assert(pv[i as int] == def.params@[i as int]@);
            assert(env_entries(env) == pre.insert(pv[i as int], off));
        }
        i = i + 1;
    }
    proof {
        assert(env_entries(env) == penv_acc(pv, 0, Map::empty()));
    }
    let empty_brake = String::new();
    let mut body_instrs = match compile_expr(&def.body, 2, &env, &empty_brake, labels) {
        Ok(v) => v,
        Err(e) => {
            return Err(e);
        },
    };
    let ghost bodyv = iv(body_instrs@);
    let mut instrs = vec![Instr::Label(def.name.clone())];
    instrs.append(&mut body_instrs);
    instrs.push(Instr::Ret);
    proof {
        assert(iv(instrs@) =~= seq![InstrV::Label(def@.name)] + bodyv + seq![InstrV::Ret]);
    }
    Ok(instrs)
}

/// Lowering of a whole program: the definitions' instructions and the main
/// expression's instructions, with one label counter threaded through.
#[verifier::loop_isolation(false)]
pub fn compile_program(p: &Program) -> (r: Result<(Vec<Instr>, Vec<Instr>), CompErr>)
    requires
        prog_fits(p@),
    ensures
        (match sc_program(p@) {
            Err(er) => r matches Err(e2) && e2@ == er,
            Ok((d, m)) => r matches Ok(x) && iv(x.0@) == d && iv(x.1@) == m,
        }),
{
    let ghost dv = p@.defs;
    let mut labels: i64 = 0;
    let mut defs: Vec<Instr> = Vec::new();
    let mut i: usize = 0;
    proof {
        assert(dv.subrange(0, dv.len() as int) =~= dv);
        assert(iv(defs@) =~= Seq::<InstrV>::empty());
        assert(forall|tl: Seq<InstrV>| #[trigger] (iv(defs@) + tl) =~= tl);
    }
    while i < p.defs.len()
        invariant
            i <= p.defs@.len(),
            p.defs@.len() == dv.len(),
            0 <= labels,
            labels + 2 * defs_size(dv.subrange(i as int, dv.len() as int)) <= 2 * defs_size(dv),
            (match sc_defs(dv.subrange(i as int, dv.len() as int), labels as int) {
                Ok(x) => sc_defs(dv, 0) == Ok::<(Seq<InstrV>, int), CompErrV>(
                    (iv(defs@) + x.0, x.1),
                ),
                Err(er) => sc_defs(dv, 0) == Err::<(Seq<InstrV>, int), CompErrV>(er),
            }),
        decreases p.defs@.len() - i,
    {
        proof {
            assert(dv.subrange(i as int, dv.len() as int)[0] == dv[i as int]);
            assert(dv.subrange(i as int, dv.len() as int).subrange(
                1,
                dv.len() - i as int,
            ) =~= dv.subrange(i as int + 1, dv.len() as int));
            crate::syntax::lemma_defs_size_index(dv, i as int);
            crate::syntax::lemma_esize_pos(p@.main);
            assert(dv[i as int] == p.defs@[i as int]@);
        }
        let mut d_instrs = match compile_fundef(&p.defs[i], &mut labels) {
            Ok(v) => v,
            Err(e) => {
                return Err(e);
            },
        };
        let ghost pre_iv = iv(defs@);
        let ghost divv = iv(d_instrs@);
        defs.append(&mut d_instrs);
        proof {
            assert(iv(defs@) =~= pre_iv + divv);
            assert(forall|tl: Seq<InstrV>| pre_iv + (divv + tl) =~= #[trigger] (iv(defs@) + tl));
        }
        i = i + 1;
    }
    proof {
        assert(dv.subrange(dv.len() as int, dv.len() as int) =~= Seq::<FunDefV>::empty());
        assert(iv(defs@) + Seq::<InstrV>::empty() =~= iv(defs@));
        crate::syntax::lemma_esize_pos(p@.main);
    }
    let main_env = env_new();
    let empty_brake = String::new();
    let main_instrs = match compile_expr(&p.main, 2, &main_env, &empty_brake, &mut labels) {
        Ok(v) => v,
        Err(e) => {
            return Err(e);
        },
    };
    Ok((defs, main_instrs))
}

/// The compiler: a program becomes the complete NASM text, with the fixed
/// frame, the error handler, the definitions, and the main body.
pub fn compile(p: &Program) -> (r: Result<String, CompErr>)
    requires
        prog_fits(p@),
    ensures
        (match prog_text(p@) {
            Err(er) => r matches Err(e2) && e2@ == er,
            Ok(t) => r matches Ok(s2) && s2@ == t,
        }),
{
    let prelude_vec = error_handler();
    let prelude = instrs_to_string(&prelude_vec);
    match compile_program(p) {
        Err(e) => Err(e),
        Ok(code) => {
            let (defs_instrs, main_instrs) = code;
            let defs_asm = instrs_to_string(&defs_instrs);
            let main_asm = instrs_to_string(&main_instrs);
            let mut out = String::from_str("\nsection .text\nglobal our_code_starts_here\next");
            out.append("ern snek_error\next");
            out.append("ern snek_print\n");
            out.append(prelude.as_str());
            out.append(defs_asm.as_str());
            out.append("our_code_starts_here:\nmov r15, rsi\n");
            out.append(main_asm.as_str());
            out.append("ret\n");
            proof {
                assert(out@ =~= "\nsection .text\nglobal our_code_starts_here\next"@
                    + "ern snek_error\next"@ + "ern snek_print\n"@ + instrs_str(err_handler_seq())
                    + instrs_str(iv(defs_instrs@)) + "our_code_starts_here:\nmov r15, rsi\n"@
                    + instrs_str(iv(main_instrs@)) + "ret\n"@);
            }
            Ok(out)
        },
    }
}

} // verus!

verus! {

/// Shadowing: inside a `let` that rebinds `x`, the name resolves to the
/// inner slot; outside, it resolves to the outer slot; and the rebinding
/// changes nothing for any other name.  The body environment of a `let` is
/// built by `sc_bindings` through successive inserts, so the innermost
/// binding of a name wins.
pub proof fn lemma_let_shadowing(
    x: Seq<char>,
    inner_off: i64,
    env: Map<Seq<char>, i64>,
    si: int,
    brake: Seq<char>,
    l: int,
)
    requires
        x != "input"@,
        env.dom().contains(x),
    ensures
        sc_expr(ExprV::Var(x), si, env.insert(x, inner_off), brake, l) == Ok::<
            (Seq<InstrV>, int),
            CompErrV,
        >((seq![InstrV::Mov(rg(Reg::Rax), mem_bd(Reg::Rsp, -(inner_off as int)))], l)),
        sc_expr(ExprV::Var(x), si, env, brake, l) == Ok::<(Seq<InstrV>, int), CompErrV>(
            (seq![InstrV::Mov(rg(Reg::Rax), mem_bd(Reg::Rsp, -(env[x] as int)))], l),
        ),
        forall|y: Seq<char>|
            y != x ==> #[trigger] sc_expr(ExprV::Var(y), si, env.insert(x, inner_off), brake, l)
                == sc_expr(ExprV::Var(y), si, env, brake, l),
{
}

/// A `break` lowers to its operand's code followed by a jump to the
/// innermost loop's exit label, and a `loop` emits that exit label as the
/// very last instruction of its block: a taken break lands immediately
/// after the loop with the operand's value in RAX.
pub proof fn lemma_break_targets_loop_end(
    b: ExprV,
    e: ExprV,
    si: int,
    env: Map<Seq<char>, i64>,
    brake: Seq<char>,
    l: int,
)
    ensures
        sc_expr(ExprV::Loop(Box::new(b)), si, env, brake, l) == (match sc_expr(
            b,
            si,
            env,
            label_text("loopend"@, l + 1),
            l + 2,
        ) {
            Err(er) => Err::<(Seq<InstrV>, int), CompErrV>(er),
            Ok((sb, l1)) => Ok(
                (
                    seq![InstrV::Label(label_text("loop"@, l))] + sb + seq![
                        InstrV::Jmp(label_text("loop"@, l)),
                        InstrV::Label(label_text("loopend"@, l + 1)),
                    ],
                    l1,
                ),
            ),
        }),
        (match sc_expr(ExprV::Loop(Box::new(b)), si, env, brake, l) {
            Ok((s, _)) => s.len() > 0 && s[s.len() - 1] == InstrV::Label(
                label_text("loopend"@, l + 1),
            ),
            Err(_) => true,
        }),
        brake.len() > 0 ==> sc_expr(ExprV::Break(Box::new(e)), si, env, brake, l) == (
        match sc_expr(e, si, env, brake, l) {
            Err(er) => Err::<(Seq<InstrV>, int), CompErrV>(er),
            Ok((se, l1)) => Ok((se + seq![InstrV::Jmp(brake)], l1)),
        }),
{
}

/// The guards of an operation that requires numbers: both operands are
/// followed by the code-2 check, and the addition by the code-3 overflow
/// check.  The other arithmetic and comparison forms, the code-1 check of
/// `=`, and the code-4 checks of the tuple forms are pinned the same way by
/// `sc_expr`.
pub proof fn lemma_plus_guards(
    e1: ExprV,
    e2: ExprV,
    si: int,
    env: Map<Seq<char>, i64>,
    brake: Seq<char>,
    l: int,
)
    ensures
        sc_expr(ExprV::BinOp(Op2::Plus, Box::new(e1), Box::new(e2)), si, env, brake, l) == (
        match sc_expr(e1, si, env, brake, l) {
            Err(er) => Err::<(Seq<InstrV>, int), CompErrV>(er),
            Ok((s1, l1)) => match sc_expr(e2, si + 1, env, brake, l1) {
                Err(er) => Err::<(Seq<InstrV>, int), CompErrV>(er),
                Ok((s2, l2)) => Ok(
                    (
                        s1 + not_num_seq() + seq![
                            InstrV::Mov(mem_bd(Reg::Rsp, -(si * 8)), rg(Reg::Rax)),
                        ] + s2 + not_num_seq() + (seq![
                            InstrV::Add(rg(Reg::Rax), mem_bd(Reg::Rsp, -(si * 8))),
                        ] + overflow_seq()),
                        l2,
                    ),
                ),
            },
        }),
{
}

/// The guard of `=`: after both operands, the saved first operand is moved
/// to RCX and the code-1 same-type check runs before the comparison.
pub proof fn lemma_equal_guards(
    e1: ExprV,
    e2: ExprV,
    si: int,
    env: Map<Seq<char>, i64>,
    brake: Seq<char>,
    l: int,
)
    ensures
        sc_expr(ExprV::BinOp(Op2::Equal, Box::new(e1), Box::new(e2)), si, env, brake, l) == (
        match sc_expr(e1, si, env, brake, l) {
            Err(er) => Err::<(Seq<InstrV>, int), CompErrV>(er),
            Ok((s1, l1)) => match sc_expr(e2, si + 1, env, brake, l1) {
                Err(er) => Err::<(Seq<InstrV>, int), CompErrV>(er),
                Ok((s2, l2)) => Ok(
                    (
                        s1 + seq![InstrV::Mov(mem_bd(Reg::Rsp, -(si * 8)), rg(Reg::Rax))] + s2
                            + seq![InstrV::Mov(rg(Reg::Rcx), mem_bd(Reg::Rsp, -(si * 8)))]
                            + diff_type_seq() + seq![
                            InstrV::Cmp(rg(Reg::Rax), mem_bd(Reg::Rsp, -(si * 8))),
                            InstrV::Mov(rg(Reg::Rax), imv(3)),
                            InstrV::Mov(rg(Reg::Rbx), imv(7)),
                            InstrV::Cmove(rg(Reg::Rax), rg(Reg::Rbx)),
                        ],
                        l2,
                    ),
                ),
            },
        }),
{
}

/// The guards of `index`: the index is checked as a number (code 2), the
/// tuple operand as a tuple pointer (code 4), before the element load.
pub proof fn lemma_index_guards(
    t: ExprV,
    idx: ExprV,
    si: int,
    env: Map<Seq<char>, i64>,
    brake: Seq<char>,
    l: int,
)
    ensures
        sc_expr(ExprV::Index(Box::new(t), Box::new(idx)), si, env, brake, l) == (match sc_expr(
            idx,
            si,
            env,
            brake,
            l,
        ) {
            Err(er) => Err::<(Seq<InstrV>, int), CompErrV>(er),
            Ok((s_i, l1)) => match sc_expr(t, si + 1, env, brake, l1) {
                Err(er) => Err::<(Seq<InstrV>, int), CompErrV>(er),
                Ok((s_t, l2)) => Ok(
                    (
                        s_i + not_num_seq() + seq![
                            InstrV::Mov(mem_bd(Reg::Rsp, -(si * 8)), rg(Reg::Rax)),
                        ] + s_t + not_tuple_seq() + seq![
                            InstrV::Sub(rg(Reg::Rax), imv(1)),
                            InstrV::Mov(rg(Reg::Rbx), mem_bd(Reg::Rsp, -(si * 8))),
                            InstrV::Sar(rg(Reg::Rbx), imv(1)),
                            InstrV::Add(rg(Reg::Rbx), imv(1)),
                            InstrV::Mov(rg(Reg::Rax), mem_bis(Reg::Rax, Reg::Rbx, 8)),
                        ],
                        l2,
                    ),
                ),
            },
        }),
{
}

/// Label minting is deterministic: the assembly text is a function of the
/// program alone, so compiling the same program twice yields byte-identical
/// output.
pub proof fn lemma_compile_deterministic(p: ProgramV, t1: Seq<char>, t2: Seq<char>)
    requires
        prog_text(p) == Ok::<Seq<char>, CompErrV>(t1),
        prog_text(p) == Ok::<Seq<char>, CompErrV>(t2),
    ensures
        t1 == t2,
{
}

} // verus!
