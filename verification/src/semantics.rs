//! The virtual machine's semantics as mathematics: a machine state, a
//! one-instruction transition function, and a fuel-bounded execution
//! function. The executable machine in `vm` is proved to follow these
//! definitions; the laws in `laws` are proved from them.

use vstd::prelude::*;

use crate::code::{
    be_read, OP_ADD, OP_BANG, OP_CONSTANT, OP_DIV, OP_EQUAL, OP_FALSE, OP_GET_GLOBAL,
    OP_GREATER_THAN, OP_JUMP, OP_JUMP_NOT_TRUE, OP_MINUS, OP_MUL, OP_NOT_EQUAL, OP_NULL, OP_POP,
    OP_SET_GLOBAL, OP_SUB, OP_TRUE,
};
use crate::errors::VmError;
use crate::object::Obj;

verus! {

/// The operand stack's capacity: a push onto a stack of this depth fails.
pub const STACK_SIZE: usize = 2048;

/// A machine state: the instruction pointer, the fixed instruction stream
/// and constant pool, the operand stack, the global slot table, and the
/// value most recently removed by a `POP` instruction.
#[verifier::ext_equal]
pub struct VmState {
    pub ip: int,
    pub instructions: Seq<u8>,
    pub constants: Seq<Obj>,
    pub stack: Seq<Obj>,
    pub globals: Seq<Obj>,
    pub last_popped: Option<Obj>,
}

/// Which values count as true in a conditional: false and null are not
/// true; every other value is.
pub open spec fn truthy(o: Obj) -> bool {
    match o {
        Obj::Bool(b) => b,
        Obj::Null => false,
        _ => true,
    }
}

/// Truncated 128-bit division, wrapped: the quotient toward zero, and the
/// minimum value where the quotient itself cannot be represented (which
/// arises only for `MIN / -1`).
pub open spec fn div_wrap(l: i128, r: i128) -> i128
    recommends
        r != 0,
{
    let x = l as int;
    let d = r as int;
    let q = if x == 0 {
        0int
    } else if x > 0 && d > 0 {
        x / d
    } else if x < 0 && d < 0 {
        ((x * -1) / (d * -1))
    } else if x < 0 {
        ((x * -1) / d) * -1
    } else {
        (x / (d * -1)) * -1
    };
    if i128::MIN <= q <= i128::MAX {
        q as i128
    } else {
        i128::MIN
    }
}

/// 128-bit negation, wrapped: the minimum value is its own negation.
pub open spec fn neg_wrap(v: i128) -> i128 {
    if v == i128::MIN {
        i128::MIN
    } else {
        (-v) as i128
    }
}

/// The integer result of an arithmetic opcode, in wrapping 128-bit
/// arithmetic.
pub open spec fn arith_int(op: u8, l: i128, r: i128) -> i128
    recommends
        OP_ADD <= op <= OP_DIV,
        op == OP_DIV ==> r != 0,
{
    if op == OP_ADD {
        l.wrapping_add(r)
    } else if op == OP_SUB {
        l.wrapping_sub(r)
    } else if op == OP_MUL {
        l.wrapping_mul(r)
    } else {
        div_wrap(l, r)
    }
}

/// What an arithmetic opcode makes of its two operands: integer arithmetic
/// on two integers, concatenation (left then right) for `ADD` on two
/// strings, a zero-divisor failure for integer division by zero, and a
/// type-mismatch failure for every other pairing.
pub open spec fn arith_result(op: u8, l: Obj, r: Obj) -> Result<Obj, VmError>
    recommends
        OP_ADD <= op <= OP_DIV,
{
    match (l, r) {
        (Obj::Int(a), Obj::Int(b)) => if op == OP_DIV && b == 0 {
            Err(VmError::DivisionByZero)
        } else {
            Ok(Obj::Int(arith_int(op, a, b)))
        },
        (Obj::Str(a), Obj::Str(b)) => if op == OP_ADD {
            Ok(Obj::Str(a + b))
        } else {
            Err(VmError::TypeMismatch)
        },
        _ => Err(VmError::TypeMismatch),
    }
}

/// What a comparison opcode makes of its two operands: value comparison of
/// two integers, equality comparison of two booleans (order is not defined
/// for booleans), and a type-mismatch failure otherwise.
pub open spec fn cmp_result(op: u8, l: Obj, r: Obj) -> Result<Obj, VmError>
    recommends
        OP_EQUAL <= op <= OP_GREATER_THAN,
{
    match (l, r) {
        (Obj::Int(a), Obj::Int(b)) => if op == OP_EQUAL {
            Ok(Obj::Bool(a == b))
        } else if op == OP_NOT_EQUAL {
            Ok(Obj::Bool(a != b))
        } else {
            Ok(Obj::Bool(a > b))
        },
        (Obj::Bool(a), Obj::Bool(b)) => if op == OP_EQUAL {
            Ok(Obj::Bool(a == b))
        } else if op == OP_NOT_EQUAL {
            Ok(Obj::Bool(a != b))
        } else {
            Err(VmError::TypeMismatch)
        },
        _ => Err(VmError::TypeMismatch),
    }
}

/// A push onto the state's operand stack, failing at capacity.
pub open spec fn push_step(s: VmState, v: Obj) -> Result<VmState, VmError> {
    if s.stack.len() >= STACK_SIZE {
        Err(VmError::StackOverflow)
    } else {
        Ok(VmState { stack: s.stack.push(v), ..s })
    }
}

/// One fetch-decode-execute transition from a non-terminal state: the
/// successor state, or the fatal error that aborts the run.
pub open spec fn step(s: VmState) -> Result<VmState, VmError>
    recommends
        0 <= s.ip < s.instructions.len(),
{
    let op = s.instructions[s.ip];
    if op == OP_CONSTANT {
        if s.ip + 3 > s.instructions.len() {
            Err(VmError::TruncatedOperand)
        } else {
            let idx = be_read(s.instructions, s.ip + 1);
            if idx >= s.constants.len() {
                Err(VmError::UndefinedConstant(idx as u16))
            } else {
                push_step(VmState { ip: s.ip + 3, ..s }, s.constants[idx])
            }
        }
    } else if OP_ADD <= op <= OP_DIV {
        if s.stack.len() == 0 {
            Err(VmError::StackUnderflow)
        } else if s.stack.len() == 1 {
            Err(VmError::StackUnderflow)
        } else {
            let right = s.stack.last();
            let left = s.stack[s.stack.len() - 2];
            let popped = VmState { ip: s.ip + 1, stack: s.stack.drop_last().drop_last(), ..s };
            match arith_result(op, left, right) {
                Ok(v) => push_step(popped, v),
                Err(e) => Err(e),
            }
        }
    } else if op == OP_TRUE {
        push_step(VmState { ip: s.ip + 1, ..s }, Obj::Bool(true))
    } else if op == OP_FALSE {
        push_step(VmState { ip: s.ip + 1, ..s }, Obj::Bool(false))
    } else if OP_EQUAL <= op <= OP_GREATER_THAN {
        if s.stack.len() < 2 {
            Err(VmError::StackUnderflow)
        } else {
            let right = s.stack.last();
            let left = s.stack[s.stack.len() - 2];
            let popped = VmState { ip: s.ip + 1, stack: s.stack.drop_last().drop_last(), ..s };
            match cmp_result(op, left, right) {
                Ok(v) => push_step(popped, v),
                Err(e) => Err(e),
            }
        }
    } else if op == OP_MINUS {
        if s.stack.len() == 0 {
            Err(VmError::StackUnderflow)
        } else {
            match s.stack.last() {
                Obj::Int(v) => push_step(
                    VmState { ip: s.ip + 1, stack: s.stack.drop_last(), ..s },
                    Obj::Int(neg_wrap(v)),
                ),
                _ => Err(VmError::NotAnInteger),
            }
        }
    } else if op == OP_BANG {
        if s.stack.len() == 0 {
            Err(VmError::StackUnderflow)
        } else {
            let popped = VmState { ip: s.ip + 1, stack: s.stack.drop_last(), ..s };
            match s.stack.last() {
                Obj::Bool(b) => push_step(popped, Obj::Bool(!b)),
                Obj::Null => push_step(popped, Obj::Bool(true)),
                _ => push_step(popped, Obj::Bool(false)),
            }
        }
    } else if op == OP_JUMP_NOT_TRUE {
        if s.stack.len() == 0 {
            Err(VmError::StackUnderflow)
        } else {
            let cond = s.stack.last();
            let popped = s.stack.drop_last();
            if truthy(cond) {
                Ok(VmState { ip: s.ip + 3, stack: popped, ..s })
            } else if s.ip + 3 > s.instructions.len() {
                Err(VmError::TruncatedOperand)
            } else {
                Ok(VmState { ip: be_read(s.instructions, s.ip + 1), stack: popped, ..s })
            }
        }
    } else if op == OP_JUMP {
        if s.ip + 3 > s.instructions.len() {
            Err(VmError::TruncatedOperand)
        } else {
            Ok(VmState { ip: be_read(s.instructions, s.ip + 1), ..s })
        }
    } else if op == OP_SET_GLOBAL {
        if s.ip + 3 > s.instructions.len() {
            Err(VmError::TruncatedOperand)
        } else {
            let idx = be_read(s.instructions, s.ip + 1);
            if s.stack.len() == 0 {
                Err(VmError::StackUnderflow)
            } else {
                let v = s.stack.last();
                let popped = VmState { ip: s.ip + 3, stack: s.stack.drop_last(), ..s };
                if idx < s.globals.len() {
                    Ok(VmState { globals: s.globals.update(idx, v), ..popped })
                } else if idx == s.globals.len() {
                    Ok(VmState { globals: s.globals.push(v), ..popped })
                } else {
                    Err(VmError::UndefinedGlobal(idx as u16))
                }
            }
        }
    } else if op == OP_GET_GLOBAL {
        if s.ip + 3 > s.instructions.len() {
            Err(VmError::TruncatedOperand)
        } else {
            let idx = be_read(s.instructions, s.ip + 1);
            if idx >= s.globals.len() {
                Err(VmError::UndefinedGlobal(idx as u16))
            } else {
                push_step(VmState { ip: s.ip + 3, ..s }, s.globals[idx])
            }
        }
    } else if op == OP_NULL {
        push_step(VmState { ip: s.ip + 1, ..s }, Obj::Null)
    } else if op == OP_POP {
        if s.stack.len() == 0 {
            Err(VmError::StackUnderflow)
        } else {
            Ok(
                VmState {
                    ip: s.ip + 1,
                    stack: s.stack.drop_last(),
                    last_popped: Some(s.stack.last()),
                    ..s
                },
            )
        }
    } else {
        Err(VmError::UnimplementedOpcode(op))
    }
}

/// Whether a state is terminal: the instruction pointer has left the
/// instruction stream, so the run completes normally.
pub open spec fn terminal(s: VmState) -> bool {
    !(0 <= s.ip < s.instructions.len())
}

/// Where a bounded execution ends up: still running after the allotted
/// steps, halted normally, or aborted by a fatal error in the state that
/// held when the failing instruction was fetched.
#[verifier::ext_equal]
pub enum Outcome {
    Running(VmState),
    Halted(VmState),
    Failed(VmState, VmError),
}

/// Execution of at most `n` transitions from `s`.
pub open spec fn exec_n(s: VmState, n: nat) -> Outcome
    decreases n,
{
    if n == 0 {
        Outcome::Running(s)
    } else if terminal(s) {
        Outcome::Halted(s)
    } else {
        match step(s) {
            Ok(s2) => exec_n(s2, (n - 1) as nat),
            Err(e) => Outcome::Failed(s, e),
        }
    }
}

/// One more successful transition extends a bounded execution.
pub proof fn lemma_exec_n_step(s0: VmState, n: nat, s: VmState, s2: VmState)
    requires
        exec_n(s0, n) == Outcome::Running(s),
        !terminal(s),
        step(s) == Ok::<VmState, VmError>(s2),
    ensures
        exec_n(s0, n + 1) == Outcome::Running(s2),
    decreases n,
{
    reveal_with_fuel(exec_n, 2);
    if n > 0 {
        lemma_exec_n_step(step(s0).unwrap(), (n - 1) as nat, s, s2);
    }
}

/// A run that has reached a terminal state halts with one more unit of fuel.
pub proof fn lemma_exec_n_halt(s0: VmState, n: nat, s: VmState)
    requires
        exec_n(s0, n) == Outcome::Running(s),
        terminal(s),
    ensures
        exec_n(s0, n + 1) == Outcome::Halted(s),
    decreases n,
{
    reveal_with_fuel(exec_n, 2);
    if n > 0 {
        lemma_exec_n_halt(step(s0).unwrap(), (n - 1) as nat, s);
    }
}

/// A failing transition ends a bounded execution with one more unit of fuel.
pub proof fn lemma_exec_n_fail(s0: VmState, n: nat, s: VmState, e: VmError)
    requires
        exec_n(s0, n) == Outcome::Running(s),
        !terminal(s),
        step(s) == Err::<VmState, VmError>(e),
    ensures
        exec_n(s0, n + 1) == Outcome::Failed(s, e),
    decreases n,
{
    reveal_with_fuel(exec_n, 2);
    if n > 0 {
        lemma_exec_n_fail(step(s0).unwrap(), (n - 1) as nat, s, e);
    }
}

/// Once a bounded execution has halted or failed, more fuel changes nothing.
pub proof fn lemma_exec_n_stable(s0: VmState, n: nat, m: nat)
    requires
        !(exec_n(s0, n) is Running),
        n <= m,
    ensures
        exec_n(s0, m) == exec_n(s0, n),
    decreases n,
{
    reveal_with_fuel(exec_n, 2);
    if n > 0 && !terminal(s0) {
        if step(s0) is Ok {
            lemma_exec_n_stable(step(s0).unwrap(), (n - 1) as nat, (m - 1) as nat);
        }
    }
}

/// Execution is deterministic: two bounded executions that both end (halt
/// or fail) end the same way.
pub proof fn lemma_exec_n_unique(s0: VmState, n: nat, m: nat)
    requires
        !(exec_n(s0, n) is Running),
        !(exec_n(s0, m) is Running),
    ensures
        exec_n(s0, n) == exec_n(s0, m),
{
    if n <= m {
        lemma_exec_n_stable(s0, n, m);
    } else {
        lemma_exec_n_stable(s0, m, n);
    }
}

} // verus!
