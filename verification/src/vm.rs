//! The virtual machine: a fetch-decode-execute loop over one `Bytecode`
//! value, holding a bounded operand stack and a caller-supplied global slot
//! table. Every transition it makes is proved to be the `step` transition
//! of the semantics module.

use vstd::prelude::*;

use crate::code::{
    read_u16_be, Instructions, OP_ADD, OP_BANG, OP_CONSTANT, OP_DIV, OP_EQUAL, OP_FALSE,
    OP_GET_GLOBAL, OP_GREATER_THAN, OP_JUMP, OP_JUMP_NOT_TRUE, OP_MINUS, OP_MUL, OP_NOT_EQUAL,
    OP_NULL, OP_POP, OP_SET_GLOBAL, OP_SUB, OP_TRUE,
};
use crate::compiler::Bytecode;
use crate::errors::VmError;
use crate::object::{
    lemma_objs_view_congruent, lemma_objs_view_drop_last, lemma_objs_view_index,
    lemma_objs_view_push, lemma_objs_view_update, objs_view, view_opt, Boolean, Integer, MObject,
    MString, Obj,
};
use crate::semantics::{
    arith_int, arith_result, cmp_result, exec_n, lemma_exec_n_fail, lemma_exec_n_halt,
    lemma_exec_n_stable, lemma_exec_n_step, push_step, step, terminal, truthy, Outcome, VmState,
    STACK_SIZE,
};

verus! {

broadcast use crate::object::lemma_objs_view_index;

/// The capacity reserved for the global slot table.
pub const GLOBALS_SIZE: usize = 65536;

/// The singleton true value.
pub fn native_bool_to_boolean(b: bool) -> (r: MObject)
    ensures
        r@ == Obj::Bool(b),
{
    if b {
        MObject::Bool(Boolean { value: true })
    } else {
        MObject::Bool(Boolean { value: false })
    }
}

/// Whether the value counts as true in a conditional.
pub fn is_truthy(o: MObject) -> (r: bool)
    ensures
        r == truthy(o@),
{
    match o {
        MObject::Bool(x) => x.value,
        MObject::Null => false,
        _ => true,
    }
}

/// The machine. Its stack never exceeds `STACK_SIZE` entries.
pub struct Vm {
    instructions: Instructions,
    constants: Vec<MObject>,
    globals: Vec<MObject>,
    stack: Vec<MObject>,
    last_op_pop_element: Option<MObject>,
}

impl Vm {
    /// The machine's state as mathematics, at instruction pointer `ip`.
    pub closed spec fn abs(&self, ip: int) -> VmState {
        VmState {
            ip,
            instructions: self.instructions@,
            constants: objs_view(self.constants@),
            stack: objs_view(self.stack@),
            globals: objs_view(self.globals@),
            last_popped: view_opt(self.last_op_pop_element),
        }
    }

    /// The machine's internal invariant: the stack is within capacity.
    pub closed spec fn wf(&self) -> bool {
        self.stack@.len() <= STACK_SIZE
    }

    /// A fresh machine over the bytecode, with an empty global slot table.
    pub fn new(bytecode: Bytecode) -> (r: Vm)
        ensures
            r.wf(),
            r.abs(0) == (VmState {
                ip: 0,
                instructions: bytecode.instructions@,
                constants: objs_view(bytecode.constants@),
                stack: Seq::<Obj>::empty(),
                globals: Seq::<Obj>::empty(),
                last_popped: None,
            }),
    {
        let r = Vm {
            instructions: bytecode.instructions,
            constants: bytecode.constants,
            globals: Vec::with_capacity(GLOBALS_SIZE),
            stack: Vec::with_capacity(STACK_SIZE),
            last_op_pop_element: None,
        };
        proof {
            assert(objs_view(Seq::<MObject>::empty()) =~= Seq::<Obj>::empty());
            assert(r.abs(0) =~= (VmState {
                ip: 0,
                instructions: bytecode.instructions@,
                constants: objs_view(bytecode.constants@),
                stack: Seq::<Obj>::empty(),
                globals: Seq::<Obj>::empty(),
                last_popped: None,
            }));
        }
        r
    }

    /// A machine over the bytecode that adopts an existing global slot
    /// table, carrying one session's bindings into the next run.
    pub fn with_state(bytecode: Bytecode, globals: Vec<MObject>) -> (r: Vm)
        ensures
            r.wf(),
            r.abs(0) == (VmState {
                ip: 0,
                instructions: bytecode.instructions@,
                constants: objs_view(bytecode.constants@),
                stack: Seq::<Obj>::empty(),
                globals: objs_view(globals@),
                last_popped: None,
            }),
    {
        let r = Vm {
            instructions: bytecode.instructions,
            constants: bytecode.constants,
            globals,
            stack: Vec::with_capacity(STACK_SIZE),
            last_op_pop_element: None,
        };
        proof {
            assert(objs_view(Seq::<MObject>::empty()) =~= Seq::<Obj>::empty());
            assert(r.abs(0) =~= (VmState {
                ip: 0,
                instructions: r.instructions@,
                constants: objs_view(r.constants@),
                stack: Seq::<Obj>::empty(),
                globals: objs_view(r.globals@),
                last_popped: None,
            }));
        }
        r
    }

    /// A snapshot of the global slot table, for carrying into the next
    /// compile/run cycle.
    pub fn globals(&self) -> (r: Vec<MObject>)
        ensures
            objs_view(r@) == self.abs(0).globals,
    {
        let mut r: Vec<MObject> = Vec::new();
        let mut i: usize = 0;
        while i < self.globals.len()
            invariant
                i <= self.globals@.len(),
                r@.len() == i,
                forall|j: int| 0 <= j < i ==> r@[j]@ == self.globals@[j]@,
            decreases self.globals@.len() - i,
        {
            r.push(self.globals[i].clone());
            i += 1;
        }
        proof {
            lemma_objs_view_congruent(r@, self.globals@);
        }
        r
    }

    /// The value most recently removed by a `POP` instruction: the
    /// externally observable result of the most recently completed
    /// top-level statement.
    pub fn stack_top(&self) -> (r: Option<&MObject>)
        ensures
            match r {
                Some(o) => self.abs(0).last_popped == Some(o@),
                None => self.abs(0).last_popped is None,
            },
    {
        self.last_op_pop_element.as_ref()
    }

    /// Push a value, failing with `StackOverflow` exactly when the stack
    /// already holds `STACK_SIZE` values (the value is then dropped, the
    /// stack unchanged: no silent truncation or reallocation).
    fn push(&mut self, o: MObject) -> (r: Result<(), VmError>)
        ensures
            final(self).instructions@ == old(self).instructions@,
            final(self).constants@ == old(self).constants@,
            final(self).globals@ == old(self).globals@,
            final(self).last_op_pop_element == old(self).last_op_pop_element,
            match r {
                Ok(()) => old(self).stack@.len() < STACK_SIZE
                    && final(self).stack@ == old(self).stack@.push(o),
                Err(e) => e == VmError::StackOverflow
                    && old(self).stack@.len() >= STACK_SIZE
                    && final(self).stack@ == old(self).stack@,
            },
    {
        if self.stack.len() < STACK_SIZE {
            self.stack.push(o);
            Ok(())
        } else {
            Err(VmError::StackOverflow)
        }
    }

    /// Pop a value, failing with `StackUnderflow` exactly on an empty stack.
    fn pop(&mut self) -> (r: Result<MObject, VmError>)
        ensures
            final(self).instructions@ == old(self).instructions@,
            final(self).constants@ == old(self).constants@,
            final(self).globals@ == old(self).globals@,
            final(self).last_op_pop_element == old(self).last_op_pop_element,
            match r {
                Ok(o) => old(self).stack@.len() > 0
                    && final(self).stack@ == old(self).stack@.drop_last()
                    && o == old(self).stack@.last(),
                Err(e) => e == VmError::StackUnderflow
                    && old(self).stack@.len() == 0
                    && final(self).stack@ == old(self).stack@,
            },
    {
        match self.stack.pop() {
            Some(x) => Ok(x),
            None => Err(VmError::StackUnderflow),
        }
    }

    /// Execute one arithmetic opcode: pop the right then the left operand
    /// and push what `arith_result` makes of them, or abort with its error.
    fn add_op(&mut self, op: u8) -> (r: Result<(), VmError>)
        requires
            OP_ADD <= op <= OP_DIV,
            old(self).wf(),
        ensures
            final(self).instructions@ == old(self).instructions@,
            final(self).constants@ == old(self).constants@,
            final(self).globals@ == old(self).globals@,
            final(self).last_op_pop_element == old(self).last_op_pop_element,
            final(self).wf(),
            match r {
                Ok(()) => ({
                    &&& old(self).stack@.len() >= 2
                    &&& arith_result(
                        op,
                        old(self).stack@[old(self).stack@.len() - 2]@,
                        old(self).stack@.last()@,
                    ) matches Ok(v)
                    &&& objs_view(final(self).stack@)
                        == objs_view(old(self).stack@).drop_last().drop_last().push(v)
                }),
                Err(e) => if old(self).stack@.len() < 2 {
                    e == VmError::StackUnderflow
                } else {
                    arith_result(
                        op,
                        old(self).stack@[old(self).stack@.len() - 2]@,
                        old(self).stack@.last()@,
                    ) == Err::<Obj, VmError>(e)
                },
            },
    {
        let right = match self.pop() {
            Ok(o) => o,
            Err(e) => {
                return Err(e);
            },
        };
        let left = match self.pop() {
            Ok(o) => o,
            Err(e) => {
                return Err(e);
            },
        };
        proof {
            lemma_objs_view_drop_last(old(self).stack@);
            lemma_objs_view_drop_last(old(self).stack@.drop_last());
        }
        match (left, right) {
            (MObject::Int(left_val), MObject::Int(right_val)) => {
                if op == OP_DIV && right_val.value == 0 {
                    Err(VmError::DivisionByZero)
                } else {
                    let r = self.arithmetic_op(left_val.value, op, right_val.value);
                    proof {
                        lemma_objs_view_push(
                            old(self).stack@.drop_last().drop_last(),
                            MObject::Int(
                                Integer { value: arith_int(op, left_val.value, right_val.value) },
                            ),
                        );
                    }
                    r
                }
            },
            (MObject::Str(left_val), MObject::Str(right_val)) => {
                if op == OP_ADD {
                    let value = left_val.value.concat(right_val.value.as_str());
                    let obj = MObject::Str(MString { value });
                    let ghost gobj = obj;
                    let r = self.push(obj);
                    proof {
                        if r is Err {
                            assert(false);
                        }
                        lemma_objs_view_push(old(self).stack@.drop_last().drop_last(), gobj);
                    }
                    r
                } else {
                    Err(VmError::TypeMismatch)
                }
            },
            _ => Err(VmError::TypeMismatch),
        }
    }

    /// Push the wrapping 128-bit result of one arithmetic opcode on two
    /// integer operands.
    fn arithmetic_op(&mut self, left: i128, op: u8, right: i128) -> (r: Result<(), VmError>)
        requires
            OP_ADD <= op <= OP_DIV,
            op == OP_DIV ==> right != 0,
            old(self).stack@.len() < STACK_SIZE,
        ensures
            final(self).instructions@ == old(self).instructions@,
            final(self).constants@ == old(self).constants@,
            final(self).globals@ == old(self).globals@,
            final(self).last_op_pop_element == old(self).last_op_pop_element,
            r is Ok,
            final(self).stack@ == old(self).stack@.push(
                MObject::Int(Integer { value: arith_int(op, left, right) }),
            ),
    {
        let value = if op == OP_ADD {
            left.wrapping_add(right)
        } else if op == OP_SUB {
            left.wrapping_sub(right)
        } else if op == OP_MUL {
            left.wrapping_mul(right)
        } else {
            match left.checked_div(right) {
                Some(v) => v,
                None => i128::MIN,
            }
        };
        let r = self.push(MObject::Int(Integer { value }));
        proof {
            if r is Err {
                assert(false);
            }
        }
        r
    }

    /// Run the bytecode to completion or to its first fatal error, one
    /// fetch-decode-execute transition per iteration. Success and failure,
    /// and the state left behind, are exactly those of the semantics: some
    /// number of `step` transitions from the starting state ends in a
    /// `Halted` outcome agreeing with this machine's final state, or in a
    /// `Failed` outcome with the returned error, whose global slots and
    /// last-popped value agree with this machine's (mutations made before
    /// the failure point are kept, not rolled back). The caller owes a
    /// bound on the execution: a run of the bytecode that neither halts
    /// nor faults within any number of steps would never return.
    pub fn run(&mut self) -> (r: Result<(), VmError>)
        requires
            old(self).wf(),
            exists|n: nat| !(exec_n(old(self).abs(0), n) is Running),
        ensures
            final(self).wf(),
            final(self).abs(0).instructions == old(self).abs(0).instructions,
            final(self).abs(0).constants == old(self).abs(0).constants,
            match r {
                Ok(()) => exists|n: nat|
                    (#[trigger] exec_n(old(self).abs(0), n)) matches Outcome::Halted(f)
                        && f.stack == final(self).abs(0).stack
                        && f.globals == final(self).abs(0).globals
                        && f.last_popped == final(self).abs(0).last_popped,
                Err(e) => exists|n: nat|
                    (#[trigger] exec_n(old(self).abs(0), n)) matches Outcome::Failed(f, e2)
                        && e2 == e
                        && f.globals == final(self).abs(0).globals
                        && f.last_popped == final(self).abs(0).last_popped,
            },
    {
        let ghost init = old(self).abs(0);
        let ghost total: nat = choose|n: nat| !(exec_n(init, n) is Running);
        let ghost mut cur: VmState = init;
        let ghost mut steps: nat = 0;
        let mut ip: usize = 0;

        while ip < self.instructions.len()
            invariant
                init == old(self).abs(0),
                self.wf(),
                self.instructions@ == old(self).instructions@,
                self.constants@ == old(self).constants@,
                exec_n(init, steps) == Outcome::Running(cur),
                !(exec_n(init, total) is Running),
                cur.instructions == self.instructions@,
                cur.constants == objs_view(self.constants@),
                cur.stack == objs_view(self.stack@),
                cur.globals == objs_view(self.globals@),
                cur.last_popped == view_opt(self.last_op_pop_element),
                0 <= cur.ip < self.instructions@.len() ==> cur.ip == ip as int,
                !(0 <= cur.ip < self.instructions@.len()) ==> ip as int
                    >= self.instructions@.len(),
            decreases total - steps,
        {
            proof {
                if steps >= total {
                    lemma_exec_n_stable(init, total, steps);
                }
                assert(steps < total);
            }
            let ghost prev = cur;
            let ghost pre = *self;
            let op = self.instructions[ip];

            if op == OP_CONSTANT {
                if self.instructions.len() - ip < 3 {
                    proof {
                        lemma_exec_n_fail(init, steps, prev, VmError::TruncatedOperand);
                    }
                    return Err(VmError::TruncatedOperand);
                }
                let const_idx = read_u16_be(&self.instructions, ip + 1) as usize;
                if const_idx >= self.constants.len() {
                    proof {
                        lemma_exec_n_fail(
                            init,
                            steps,
                            prev,
                            VmError::UndefinedConstant(const_idx as u16),
                        );
                    }
                    return Err(VmError::UndefinedConstant(const_idx as u16));
                }
                let obj = self.constants[const_idx].clone();
                let ghost gobj = obj;
                match self.push(obj) {
                    Ok(()) => {},
                    Err(e) => {
                        proof {
                            lemma_exec_n_fail(init, steps, prev, VmError::StackOverflow);
                        }
                        return Err(e);
                    },
                }
                ip = ip + 3;
                proof {
                    lemma_objs_view_index(pre.constants@);
                    lemma_objs_view_push(pre.stack@, gobj);
                    cur =
                    VmState {
                        ip: prev.ip + 3,
                        stack: objs_view(self.stack@),
                        ..prev
                    };
                    assert(step(prev) is Ok);
                    assert(step(prev).unwrap() =~= cur);
                    lemma_exec_n_step(init, steps, prev, cur);
                    steps = steps + 1;
                }
            } else if op >= OP_ADD && op <= OP_DIV {
                match self.add_op(op) {
                    Ok(()) => {},
                    Err(e) => {
                        proof {
                            lemma_exec_n_fail(init, steps, prev, e);
                        }
                        return Err(e);
                    },
                }
                ip = ip + 1;
                proof {
                    cur =
                    VmState {
                        ip: prev.ip + 1,
                        stack: objs_view(self.stack@),
                        ..prev
                    };
                    assert(step(prev) is Ok);
                    assert(step(prev).unwrap() =~= cur);
                    lemma_exec_n_step(init, steps, prev, cur);
                    steps = steps + 1;
                }
            } else if op == OP_TRUE || op == OP_FALSE {
                let obj = native_bool_to_boolean(op == OP_TRUE);
                let ghost gobj = obj;
                match self.push(obj) {
                    Ok(()) => {},
                    Err(e) => {
                        proof {
                            lemma_exec_n_fail(init, steps, prev, VmError::StackOverflow);
                        }
                        return Err(e);
                    },
                }
                ip = ip + 1;
                proof {
                    lemma_objs_view_push(pre.stack@, gobj);
                    cur =
                    VmState {
                        ip: prev.ip + 1,
                        stack: objs_view(self.stack@),
                        ..prev
                    };
                    assert(step(prev) is Ok);
                    assert(step(prev).unwrap() =~= cur);
                    lemma_exec_n_step(init, steps, prev, cur);
                    steps = steps + 1;
                }
            } else if op >= OP_EQUAL && op <= OP_GREATER_THAN {
                match self.comparison_op(op) {
                    Ok(()) => {},
                    Err(e) => {
                        proof {
                            lemma_exec_n_fail(init, steps, prev, e);
                        }
                        return Err(e);
                    },
                }
                ip = ip + 1;
                proof {
                    cur =
                    VmState {
                        ip: prev.ip + 1,
                        stack: objs_view(self.stack@),
                        ..prev
                    };
                    assert(step(prev) is Ok);
                    assert(step(prev).unwrap() =~= cur);
                    lemma_exec_n_step(init, steps, prev, cur);
                    steps = steps + 1;
                }
            } else if op == OP_MINUS {
                let object = match self.pop() {
                    Ok(o) => o,
                    Err(e) => {
                        proof {
                            lemma_exec_n_fail(init, steps, prev, e);
                        }
                        return Err(e);
                    },
                };
                proof {
                    lemma_objs_view_drop_last(pre.stack@);
                }
                match object {
                    MObject::Int(x) => {
                        let value = if x.value == i128::MIN {
                            i128::MIN
                        } else {
                            -x.value
                        };
                        let obj = MObject::Int(Integer { value });
                        let ghost gobj = obj;
                        match self.push(obj) {
                            Ok(()) => {},
                            Err(e) => {
                                proof {
                                    assert(false);
                                }
                                return Err(e);
                            },
                        }
                        ip = ip + 1;
                        proof {
                            lemma_objs_view_push(pre.stack@.drop_last(), gobj);
                            cur =
                            VmState {
                                ip: prev.ip + 1,
                                stack: objs_view(self.stack@),
                                ..prev
                            };
                            assert(step(prev) is Ok);
                            assert(step(prev).unwrap() =~= cur);
                            lemma_exec_n_step(init, steps, prev, cur);
                            steps = steps + 1;
                        }
                    },
                    _ => {
                        proof {
                            lemma_exec_n_fail(init, steps, prev, VmError::NotAnInteger);
                        }
                        return Err(VmError::NotAnInteger);
                    },
                }
            } else if op == OP_BANG {
                let object = match self.pop() {
                    Ok(o) => o,
                    Err(e) => {
                        proof {
                            lemma_exec_n_fail(init, steps, prev, e);
                        }
                        return Err(e);
                    },
                };
                proof {
                    lemma_objs_view_drop_last(pre.stack@);
                }
                let value: bool = match object {
                    MObject::Bool(x) => !x.value,
                    MObject::Null => true,
                    _ => false,
                };
                let obj = native_bool_to_boolean(value);
                let ghost gobj = obj;
                match self.push(obj) {
                    Ok(()) => {},
                    Err(e) => {
                        proof {
                            assert(false);
                        }
                        return Err(e);
                    },
                }
                ip = ip + 1;
                proof {
                    lemma_objs_view_push(pre.stack@.drop_last(), gobj);
                    cur =
                    VmState {
                        ip: prev.ip + 1,
                        stack: objs_view(self.stack@),
                        ..prev
                    };
                    assert(step(prev) is Ok);
                    assert(step(prev).unwrap() =~= cur);
                    lemma_exec_n_step(init, steps, prev, cur);
                    steps = steps + 1;
                }
            } else if op == OP_JUMP_NOT_TRUE {
                let cond = match self.pop() {
                    Ok(o) => o,
                    Err(e) => {
                        proof {
                            lemma_exec_n_fail(init, steps, prev, e);
                        }
                        return Err(e);
                    },
                };
                proof {
                    lemma_objs_view_drop_last(pre.stack@);
                }
                if is_truthy(cond) {
                    if self.instructions.len() - ip < 3 {
                        ip = self.instructions.len();
                    } else {
                        ip = ip + 3;
                    }
                    proof {
                        cur =
                        VmState {
                            ip: prev.ip + 3,
                            stack: objs_view(self.stack@),
                            ..prev
                        };
                        assert(step(prev) is Ok);
                        assert(step(prev).unwrap() =~= cur);
                        lemma_exec_n_step(init, steps, prev, cur);
                        steps = steps + 1;
                    }
                } else {
                    if self.instructions.len() - ip < 3 {
                        proof {
                            lemma_exec_n_fail(init, steps, prev, VmError::TruncatedOperand);
                        }
                        return Err(VmError::TruncatedOperand);
                    }
                    let target = read_u16_be(&self.instructions, ip + 1);
                    ip = target as usize;
                    proof {
                        cur =
                        VmState {
                            ip: target as int,
                            stack: objs_view(self.stack@),
                            ..prev
                        };
                        assert(step(prev) is Ok);
                        assert(step(prev).unwrap() =~= cur);
                        lemma_exec_n_step(init, steps, prev, cur);
                        steps = steps + 1;
                    }
                }
            } else if op == OP_JUMP {
                if self.instructions.len() - ip < 3 {
                    proof {
                        lemma_exec_n_fail(init, steps, prev, VmError::TruncatedOperand);
                    }
                    return Err(VmError::TruncatedOperand);
                }
                let target = read_u16_be(&self.instructions, ip + 1);
                ip = target as usize;
                proof {
                    cur = VmState { ip: target as int, ..prev };
                    assert(step(prev) is Ok);
                    assert(step(prev).unwrap() =~= cur);
                    lemma_exec_n_step(init, steps, prev, cur);
                    steps = steps + 1;
                }
            } else if op == OP_SET_GLOBAL {
                if self.instructions.len() - ip < 3 {
                    proof {
                        lemma_exec_n_fail(init, steps, prev, VmError::TruncatedOperand);
                    }
                    return Err(VmError::TruncatedOperand);
                }
                let globals_idx = read_u16_be(&self.instructions, ip + 1) as usize;
                let obj = match self.pop() {
                    Ok(o) => o,
                    Err(e) => {
                        proof {
                            lemma_exec_n_fail(init, steps, prev, e);
                        }
                        return Err(e);
                    },
                };
                let ghost gobj = obj;
                proof {
                    lemma_objs_view_drop_last(pre.stack@);
                }
                if globals_idx < self.globals.len() {
                    self.globals[globals_idx] = obj;
                    proof {
                        lemma_objs_view_update(pre.globals@, globals_idx as int, gobj);
                    }
                } else if globals_idx == self.globals.len() {
                    self.globals.push(obj);
                    proof {
                        lemma_objs_view_push(pre.globals@, gobj);
                    }
                } else {
                    proof {
                        lemma_exec_n_fail(
                            init,
                            steps,
                            prev,
                            VmError::UndefinedGlobal(globals_idx as u16),
                        );
                    }
                    return Err(VmError::UndefinedGlobal(globals_idx as u16));
                }
                ip = ip + 3;
                proof {
                    cur =
                    VmState {
                        ip: prev.ip + 3,
                        stack: objs_view(self.stack@),
                        globals: objs_view(self.globals@),
                        ..prev
                    };
                    assert(step(prev) is Ok);
                    assert(step(prev).unwrap() =~= cur);
                    lemma_exec_n_step(init, steps, prev, cur);
                    steps = steps + 1;
                }
            } else if op == OP_GET_GLOBAL {
                if self.instructions.len() - ip < 3 {
                    proof {
                        lemma_exec_n_fail(init, steps, prev, VmError::TruncatedOperand);
                    }
                    return Err(VmError::TruncatedOperand);
                }
                let globals_idx = read_u16_be(&self.instructions, ip + 1) as usize;
                if globals_idx >= self.globals.len() {
                    proof {
                        lemma_exec_n_fail(
                            init,
                            steps,
                            prev,
                            VmError::UndefinedGlobal(globals_idx as u16),
                        );
                    }
                    return Err(VmError::UndefinedGlobal(globals_idx as u16));
                }
                let obj = self.globals[globals_idx].clone();
                let ghost gobj = obj;
                match self.push(obj) {
                    Ok(()) => {},
                    Err(e) => {
                        proof {
                            lemma_exec_n_fail(init, steps, prev, VmError::StackOverflow);
                        }
                        return Err(e);
                    },
                }
                ip = ip + 3;
                proof {
                    lemma_objs_view_index(pre.globals@);
                    lemma_objs_view_push(pre.stack@, gobj);
                    cur =
                    VmState {
                        ip: prev.ip + 3,
                        stack: objs_view(self.stack@),
                        ..prev
                    };
                    assert(step(prev) is Ok);
                    assert(step(prev).unwrap() =~= cur);
                    lemma_exec_n_step(init, steps, prev, cur);
                    steps = steps + 1;
                }
            } else if op == OP_NULL {
                match self.push(MObject::Null) {
                    Ok(()) => {},
                    Err(e) => {
                        proof {
                            lemma_exec_n_fail(init, steps, prev, VmError::StackOverflow);
                        }
                        return Err(e);
                    },
                }
                ip = ip + 1;
                proof {
                    lemma_objs_view_push(pre.stack@, MObject::Null);
                    cur =
                    VmState {
                        ip: prev.ip + 1,
                        stack: objs_view(self.stack@),
                        ..prev
                    };
                    assert(step(prev) is Ok);
                    assert(step(prev).unwrap() =~= cur);
                    lemma_exec_n_step(init, steps, prev, cur);
                    steps = steps + 1;
                }
            } else if op == OP_POP {
                let obj = match self.pop() {
                    Ok(o) => o,
                    Err(e) => {
                        proof {
                            lemma_exec_n_fail(init, steps, prev, e);
                        }
                        return Err(e);
                    },
                };
                proof {
                    lemma_objs_view_drop_last(pre.stack@);
                }
                self.last_op_pop_element = Some(obj);
                ip = ip + 1;
                proof {
                    cur =
                    VmState {
                        ip: prev.ip + 1,
                        stack: objs_view(self.stack@),
                        last_popped: view_opt(self.last_op_pop_element),
                        ..prev
                    };
                    assert(step(prev) is Ok);
                    assert(step(prev).unwrap() =~= cur);
                    lemma_exec_n_step(init, steps, prev, cur);
                    steps = steps + 1;
                }
            } else {
                proof {
                    lemma_exec_n_fail(init, steps, prev, VmError::UnimplementedOpcode(op));
                }
                return Err(VmError::UnimplementedOpcode(op));
            }
        }
        proof {
            lemma_exec_n_halt(init, steps, cur);
        }
        Ok(())
    }

    /// Execute one comparison opcode: pop the right then the left operand
    /// and push what `cmp_result` makes of them, or abort with its error.
    fn comparison_op(&mut self, op: u8) -> (r: Result<(), VmError>)
        requires
            OP_EQUAL <= op <= OP_GREATER_THAN,
            old(self).wf(),
        ensures
            final(self).instructions@ == old(self).instructions@,
            final(self).constants@ == old(self).constants@,
            final(self).globals@ == old(self).globals@,
            final(self).last_op_pop_element == old(self).last_op_pop_element,
            final(self).wf(),
            match r {
                Ok(()) => ({
                    &&& old(self).stack@.len() >= 2
                    &&& cmp_result(
                        op,
                        old(self).stack@[old(self).stack@.len() - 2]@,
                        old(self).stack@.last()@,
                    ) matches Ok(v)
                    &&& objs_view(final(self).stack@)
                        == objs_view(old(self).stack@).drop_last().drop_last().push(v)
                }),
                Err(e) => if old(self).stack@.len() < 2 {
                    e == VmError::StackUnderflow
                } else {
                    cmp_result(
                        op,
                        old(self).stack@[old(self).stack@.len() - 2]@,
                        old(self).stack@.last()@,
                    ) == Err::<Obj, VmError>(e)
                },
            },
    {
        let right = match self.pop() {
            Ok(o) => o,
            Err(e) => {
                return Err(e);
            },
        };
        let left = match self.pop() {
            Ok(o) => o,
            Err(e) => {
                return Err(e);
            },
        };
        proof {
            lemma_objs_view_drop_last(old(self).stack@);
            lemma_objs_view_drop_last(old(self).stack@.drop_last());
        }
        let value: bool = match (&left, &right) {
            (MObject::Int(left_val), MObject::Int(right_val)) => {
                if op == OP_EQUAL {
                    left_val.value == right_val.value
                } else if op == OP_NOT_EQUAL {
                    left_val.value != right_val.value
                } else {
                    left_val.value > right_val.value
                }
            },
            (MObject::Bool(left_val), MObject::Bool(right_val)) => {
                if op == OP_EQUAL {
                    left_val.value == right_val.value
                } else if op == OP_NOT_EQUAL {
                    left_val.value != right_val.value
                } else {
                    return Err(VmError::TypeMismatch);
                }
            },
            _ => {
                return Err(VmError::TypeMismatch);
            },
        };
        let obj = native_bool_to_boolean(value);
        let ghost gobj = obj;
        let r = self.push(obj);
        proof {
            if r is Err {
                assert(false);
            }
            lemma_objs_view_push(old(self).stack@.drop_last().drop_last(), gobj);
        }
        r
    }
}

} // verus!
