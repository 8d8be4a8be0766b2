//! Laws of the whole pipeline, proved from the lowering and the machine
//! semantics: what compiling and running an integer literal yields, that
//! the operand-swapped lowering of `<` computes the native comparison, and
//! that a push onto a full stack fails rather than truncating.

use vstd::prelude::*;

use crate::ast::{Expr, ExpressionStatement, IntLiteral, MNode, Program, Stmt};
use crate::code::{
    be_read, spec_make, trunc16, OP_CONSTANT, OP_FALSE, OP_GET_GLOBAL, OP_GREATER_THAN, OP_NULL,
    OP_POP, OP_TRUE,
};
use crate::compiler::{lower_expr, lower_node, lower_stmt, lower_stmts, Emission};
use crate::errors::{CompileErrorModel, VmError};
use crate::object::Obj;
use crate::semantics::{
    exec_n, lemma_exec_n_unique, step, Outcome, VmState, STACK_SIZE,
};

verus! {

/// The machine a fresh run starts with: the compiled code and pool, an
/// inherited global slot table, an empty stack, and no result yet.
pub open spec fn start_state(em: Emission, g: Seq<Obj>) -> VmState {
    VmState {
        ip: 0,
        instructions: em.code,
        constants: em.consts,
        stack: Seq::empty(),
        globals: g,
        last_popped: None,
    }
}

/// For any integer literal, compiling the one-statement program that holds
/// it yields a `CONSTANT`/`POP` pair over a one-entry pool, and every run
/// of that bytecode halts with the literal as the last-popped value and
/// the global slots untouched.
#[verifier::rlimit(100)]
pub proof fn lemma_integer_literal_roundtrip(p: Program, n: i128, g: Seq<Obj>)
    requires
        p.stmts@ =~= seq![
            Stmt::Expression(ExpressionStatement { expr: Expr::Int(IntLiteral { value: n }) }),
        ],
    ensures
        lower_node(MNode::Prog(p), 0, Seq::empty(), Seq::empty(), None) matches Ok(em)
            && em.code =~= seq![OP_CONSTANT, 0u8, 0u8, OP_POP]
            && em.consts =~= seq![Obj::Int(n)]
            && (exec_n(start_state(em, g), 3) matches Outcome::Halted(f)
                && f.last_popped == Some(Obj::Int(n))
                && f.globals == g)
            && (forall|k: nat| !((#[trigger] exec_n(start_state(em, g), k)) is Running)
                ==> exec_n(start_state(em, g), k) == exec_n(start_state(em, g), 3)),
{
    reveal_with_fuel(crate::compiler::lower_stmts, 3);
    reveal(crate::compiler::lower_expr);
    assert(((0u16 >> 8) as u8) == 0 && ((0u16 & 0xff) as u8) == 0) by (bit_vector);
    let em = lower_node(MNode::Prog(p), 0, Seq::empty(), Seq::empty(), None)->Ok_0;
    assert(em.code =~= seq![OP_CONSTANT, 0u8, 0u8, OP_POP]);
    assert(em.consts =~= seq![Obj::Int(n)]);
    let init = start_state(em, g);
    reveal_with_fuel(exec_n, 4);
    assert(be_read(init.instructions, 1) == 0);
    let s1 = step(init)->Ok_0;
    assert(s1.stack =~= Seq::empty().push(Obj::Int(n)));
    let s2 = step(s1)->Ok_0;
    assert(exec_n(init, 3) == Outcome::Halted(s2));
    assert forall|k: nat| !((#[trigger] exec_n(init, k)) is Running) implies exec_n(init, k)
        == exec_n(init, 3) by {
        lemma_exec_n_unique(init, k, 3);
    }
}

/// The lowering of an integer literal: one `CONSTANT` instruction over a
/// fresh pool entry.
proof fn lemma_int_expr_lowering(e: Expr, v: i128, pos: int, cs: Seq<Obj>, sy: Seq<Seq<char>>)
    requires
        e matches Expr::Int(il) && il.value == v,
    ensures
        lower_expr(e, pos, cs, sy) == Ok::<Emission, CompileErrorModel>(
            Emission {
                code: spec_make(OP_CONSTANT, seq![trunc16(cs.len() as int)]),
                consts: cs.push(Obj::Int(v)),
                syms: sy,
                last: Some(OP_CONSTANT),
            },
        ),
{
    reveal(crate::compiler::lower_expr);
}

/// The lowering of the expression `a < b` alone: right operand pooled
/// first, then the left, then `GREATER_THAN`.
#[verifier::rlimit(100)]
proof fn lemma_lt_expr_lowering(e: Expr, a: i128, b: i128)
    requires
        e matches Expr::In(ix) && ix.operator@ == "<"@
            && (*ix.left matches Expr::Int(il) && il.value == a)
            && (*ix.right matches Expr::Int(ir) && ir.value == b),
    ensures
        lower_expr(e, 0, Seq::empty(), Seq::empty()) matches Ok(em)
            && em.code =~= seq![OP_CONSTANT, 0u8, 0u8, OP_CONSTANT, 0u8, 1u8, OP_GREATER_THAN]
            && em.consts =~= seq![Obj::Int(b), Obj::Int(a)]
            && em.syms == Seq::<Seq<char>>::empty(),
{
    reveal(crate::compiler::lower_expr);
    assert(((0u16 >> 8) as u8) == 0 && ((0u16 & 0xff) as u8) == 0) by (bit_vector);
    assert(((1u16 >> 8) as u8) == 0 && ((1u16 & 0xff) as u8) == 1) by (bit_vector);
    let ix = e->In_0;
    lemma_int_expr_lowering(*ix.right, b, 0, Seq::empty(), Seq::empty());
    let em1 = lower_expr(*ix.right, 0, Seq::empty(), Seq::empty())->Ok_0;
    assert(trunc16(0) == 0u16);
    assert(em1.code =~= seq![OP_CONSTANT, 0u8, 0u8]);
    assert(em1.consts =~= seq![Obj::Int(b)]);
    lemma_int_expr_lowering(*ix.left, a, 0 + em1.code.len() as int, em1.consts, em1.syms);
    let em2 = lower_expr(*ix.left, 0 + em1.code.len() as int, em1.consts, em1.syms)->Ok_0;
    assert(trunc16(1) == 1u16);
    assert(em2.code =~= seq![OP_CONSTANT, 0u8, 1u8]);
    assert(em2.consts =~= seq![Obj::Int(b), Obj::Int(a)]);
    let em = lower_expr(e, 0, Seq::empty(), Seq::empty())->Ok_0;
    assert(em.code =~= seq![OP_CONSTANT, 0u8, 0u8, OP_CONSTANT, 0u8, 1u8, OP_GREATER_THAN]);
    assert(em.consts =~= seq![Obj::Int(b), Obj::Int(a)]);
}

/// The lowering of an expression statement: the expression, then `POP`.
#[verifier::rlimit(100)]
#[verifier::spinoff_prover]
proof fn lemma_expr_stmt_lowering(
    st: Stmt,
    pos: int,
    cs: Seq<Obj>,
    sy: Seq<Seq<char>>,
    em_e: Emission,
)
    requires
        st matches Stmt::Expression(es) && lower_expr(es.expr, pos, cs, sy)
            == Ok::<Emission, CompileErrorModel>(em_e),
    ensures
        lower_stmt(st, pos, cs, sy) == Ok::<Emission, CompileErrorModel>(
            Emission {
                code: em_e.code + spec_make(OP_POP, Seq::empty()),
                consts: em_e.consts,
                syms: em_e.syms,
                last: Some(OP_POP),
            },
        ),
{
}

/// The lowering of a one-statement sequence is the statement's lowering.
#[verifier::rlimit(100)]
proof fn lemma_single_stmt_lowering(
    ss: Seq<Stmt>,
    pos: int,
    cs: Seq<Obj>,
    sy: Seq<Seq<char>>,
    last: Option<u8>,
    em_s: Emission,
)
    requires
        ss.len() == 1,
        lower_stmt(ss[0], pos, cs, sy) == Ok::<Emission, CompileErrorModel>(em_s),
    ensures
        lower_stmts(ss, pos, cs, sy, last) == Ok::<Emission, CompileErrorModel>(em_s),
{
    reveal_with_fuel(crate::compiler::lower_stmts, 2);
    assert(ss.drop_first().len() == 0);
    assert(em_s.code + Seq::<u8>::empty() =~= em_s.code);
    match lower_stmts(ss, pos, cs, sy, last) {
        Ok(em) => {
            assert(em =~= em_s);
        },
        Err(_) => {
            assert(false);
        },
    }
}

/// The lowering of the one-statement program computing `a < b`: the
/// compiler swaps the operands, pooling the right one first, and emits
/// `GREATER_THAN`.
#[verifier::rlimit(100)]
#[verifier::spinoff_prover]
proof fn lemma_lt_lowering(p: Program, a: i128, b: i128)
    requires
        p.stmts@.len() == 1,
        p.stmts@[0] matches Stmt::Expression(es) && es.expr matches Expr::In(ix)
            && ix.operator@ == "<"@
            && (*ix.left matches Expr::Int(il) && il.value == a)
            && (*ix.right matches Expr::Int(ir) && ir.value == b),
    ensures
        lower_node(MNode::Prog(p), 0, Seq::empty(), Seq::empty(), None) matches Ok(em)
            && em.code =~= seq![
            OP_CONSTANT,
            0u8,
            0u8,
            OP_CONSTANT,
            0u8,
            1u8,
            OP_GREATER_THAN,
            OP_POP,
        ]
            && em.consts =~= seq![Obj::Int(b), Obj::Int(a)],
{
    let st0 = p.stmts@[0];
    lemma_lt_expr_lowering(st0->Expression_0.expr, a, b);
    let emx = lower_expr(st0->Expression_0.expr, 0, Seq::empty(), Seq::empty())->Ok_0;
    lemma_expr_stmt_lowering(st0, 0, Seq::empty(), Seq::empty(), emx);
    let ems = lower_stmt(st0, 0, Seq::empty(), Seq::empty())->Ok_0;
    assert(ems.code =~= seq![
        OP_CONSTANT,
        0u8,
        0u8,
        OP_CONSTANT,
        0u8,
        1u8,
        OP_GREATER_THAN,
        OP_POP,
    ]);
    lemma_single_stmt_lowering(p.stmts@, 0, Seq::empty(), Seq::empty(), None, ems);
    let em = lower_node(MNode::Prog(p), 0, Seq::empty(), Seq::empty(), None)->Ok_0;
    assert(em == ems);
    assert(em.consts =~= seq![Obj::Int(b), Obj::Int(a)]);
}

/// Running the lowered `a < b` bytecode: the machine pushes the right
/// operand, then the left, compares, and pops the boolean.
#[verifier::rlimit(100)]
proof fn lemma_lt_execution(em: Emission, a: i128, b: i128, g: Seq<Obj>)
    requires
        em.code == seq![
            OP_CONSTANT,
            0u8,
            0u8,
            OP_CONSTANT,
            0u8,
            1u8,
            OP_GREATER_THAN,
            OP_POP,
        ],
        em.consts == seq![Obj::Int(b), Obj::Int(a)],
    ensures
        exec_n(start_state(em, g), 5) matches Outcome::Halted(f)
            && f.last_popped == Some(Obj::Bool(a < b))
            && f.globals == g,
{
    let init = start_state(em, g);
    reveal_with_fuel(exec_n, 6);
    assert(be_read(init.instructions, 1) == 0);
    assert(be_read(init.instructions, 4) == 1);
    let s1 = step(init)->Ok_0;
    assert(s1.stack =~= Seq::empty().push(Obj::Int(b)));
    let s2 = step(s1)->Ok_0;
    assert(s2.stack =~= Seq::empty().push(Obj::Int(b)).push(Obj::Int(a)));
    let s3 = step(s2)->Ok_0;
    assert(s3.stack =~= Seq::empty().push(Obj::Bool(a < b)));
    let s4 = step(s3)->Ok_0;
    assert(exec_n(init, 5) == Outcome::Halted(s4));
    assert(s4.last_popped == Some(Obj::Bool(a < b)));
}

/// For all integers `a` and `b`, the program computing `a < b` — which the
/// compiler lowers by swapping the operands and emitting `GREATER_THAN` —
/// halts with exactly the boolean `a < b`, on every run.
pub proof fn lemma_less_than_matches_native(p: Program, a: i128, b: i128, g: Seq<Obj>)
    requires
        p.stmts@.len() == 1,
        p.stmts@[0] matches Stmt::Expression(es) && es.expr matches Expr::In(ix)
            && ix.operator@ == "<"@
            && (*ix.left matches Expr::Int(il) && il.value == a)
            && (*ix.right matches Expr::Int(ir) && ir.value == b),
    ensures
        lower_node(MNode::Prog(p), 0, Seq::empty(), Seq::empty(), None) matches Ok(em)
            && em.code =~= seq![
            OP_CONSTANT,
            0u8,
            0u8,
            OP_CONSTANT,
            0u8,
            1u8,
            OP_GREATER_THAN,
            OP_POP,
        ]
            && em.consts =~= seq![Obj::Int(b), Obj::Int(a)]
            && (exec_n(start_state(em, g), 5) matches Outcome::Halted(f)
                && f.last_popped == Some(Obj::Bool(a < b))
                && f.globals == g)
            && (forall|k: nat| !((#[trigger] exec_n(start_state(em, g), k)) is Running)
                ==> exec_n(start_state(em, g), k) == exec_n(start_state(em, g), 5)),
{
    lemma_lt_lowering(p, a, b);
    let em = lower_node(MNode::Prog(p), 0, Seq::empty(), Seq::empty(), None)->Ok_0;
    lemma_lt_execution(em, a, b, g);
    let init = start_state(em, g);
    assert forall|k: nat| !((#[trigger] exec_n(init, k)) is Running) implies exec_n(init, k)
        == exec_n(init, 5) by {
        lemma_exec_n_unique(init, k, 5);
    }
}

/// A value-pushing instruction fetched while the operand stack already
/// holds its full `STACK_SIZE` values aborts the run with `StackOverflow`:
/// no silent truncation, no reallocation.
pub proof fn lemma_push_on_full_stack_overflows(s: VmState)
    requires
        0 <= s.ip < s.instructions.len(),
        s.stack.len() >= STACK_SIZE,
        ({
            let op = s.instructions[s.ip];
            (op == OP_CONSTANT && s.ip + 3 <= s.instructions.len() && be_read(
                s.instructions,
                s.ip + 1,
            ) < s.constants.len()) || op == OP_TRUE || op == OP_FALSE || op == OP_NULL || (op
                == OP_GET_GLOBAL && s.ip + 3 <= s.instructions.len() && be_read(
                s.instructions,
                s.ip + 1,
            ) < s.globals.len())
        }),
    ensures
        step(s) == Err::<VmState, VmError>(VmError::StackOverflow),
{
}

} // verus!
