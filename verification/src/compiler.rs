//! The one-pass compiler: it lowers an abstract syntax node into an
//! instruction stream and a constant pool, backpatching forward jumps and
//! assigning global slots to names in first-come order. The lowering is
//! stated first as mathematics (`lower_expr` and friends); the executable
//! compiler is proved to produce exactly that output.

use vstd::prelude::*;

use crate::ast::{BlockStatement, Expr, MNode, Program, Stmt};
use crate::code::{
    be_bytes, has_operand, is_opcode, operand_count, spec_make, trunc16, Instructions, MCode,
    OP_ADD, OP_BANG, OP_CONSTANT, OP_DIV, OP_EQUAL, OP_FALSE, OP_GET_GLOBAL, OP_GREATER_THAN,
    OP_JUMP, OP_JUMP_NOT_TRUE, OP_MINUS, OP_MUL, OP_NOT_EQUAL, OP_NULL, OP_POP, OP_SET_GLOBAL,
    OP_SUB, OP_TRUE,
};
use crate::errors::{CompileError, CompileErrorModel};
use crate::object::{lemma_objs_view_congruent, lemma_objs_view_push, objs_view, MObject, MString,
    Integer, Obj};

verus! {

broadcast use crate::object::lemma_objs_view_index;

/// The compiler's immutable output: an instruction stream paired with the
/// constant pool its `CONSTANT` instructions index into. Produced once per
/// compile, consumed once per run.
pub struct Bytecode {
    pub instructions: Instructions,
    pub constants: Vec<MObject>,
}

/// One lowering's outcome: the bytes it emits, the constant pool and symbol
/// table it leaves behind, and the opcode of the last instruction emitted
/// (unchanged where nothing was emitted).
#[verifier::ext_equal]
pub struct Emission {
    pub code: Seq<u8>,
    pub consts: Seq<Obj>,
    pub syms: Seq<Seq<char>>,
    pub last: Option<u8>,
}

/// The slot of the first occurrence of a name in the symbol table.
pub open spec fn resolve_name(sy: Seq<Seq<char>>, name: Seq<char>) -> Option<int>
    decreases sy.len(),
{
    if sy.len() == 0 {
        None
    } else if sy[0] == name {
        Some(0int)
    } else {
        match resolve_name(sy.drop_first(), name) {
            Some(i) => Some(i + 1),
            None => None,
        }
    }
}

/// `resolve_name` finds exactly the first occurrence.
pub proof fn lemma_resolve_name_first(sy: Seq<Seq<char>>, name: Seq<char>)
    ensures
        match resolve_name(sy, name) {
            Some(k) => 0 <= k < sy.len() && sy[k] == name && forall|j: int|
                0 <= j < k ==> sy[j] != name,
            None => forall|j: int| 0 <= j < sy.len() ==> sy[j] != name,
        },
    decreases sy.len(),
{
    if sy.len() > 0 {
        lemma_resolve_name_first(sy.drop_first(), name);
        assert(forall|j: int| 1 <= j < sy.len() ==> sy[j] == sy.drop_first()[j - 1]);
    }
}

/// The symbol table after binding a name, and the slot it is bound to: an
/// existing name keeps its slot; a new name takes the next one.
pub open spec fn define_name(sy: Seq<Seq<char>>, name: Seq<char>) -> (Seq<Seq<char>>, int) {
    match resolve_name(sy, name) {
        Some(i) => (sy, i),
        None => (sy.push(name), sy.len() as int),
    }
}

/// The arithmetic or comparison opcode an infix operator lowers to, if any
/// (`<` is handled apart, by operand swap).
pub open spec fn infix_opcode(op: Seq<char>) -> Option<u8> {
    if op == "+"@ {
        Some(OP_ADD)
    } else if op == "-"@ {
        Some(OP_SUB)
    } else if op == "*"@ {
        Some(OP_MUL)
    } else if op == "/"@ {
        Some(OP_DIV)
    } else if op == "=="@ {
        Some(OP_EQUAL)
    } else if op == "!="@ {
        Some(OP_NOT_EQUAL)
    } else if op == ">"@ {
        Some(OP_GREATER_THAN)
    } else {
        None
    }
}

/// The lowering of one expression, starting at byte offset `pos` with
/// constant pool `cs` and symbol table `sy`.
#[verifier::opaque]
pub open spec fn lower_expr(e: Expr, pos: int, cs: Seq<Obj>, sy: Seq<Seq<char>>) -> Result<
    Emission,
    CompileErrorModel,
>
    decreases e,
{
    match e {
        Expr::Int(lit) => Ok(
            Emission {
                code: spec_make(OP_CONSTANT, seq![trunc16(cs.len() as int)]),
                consts: cs.push(Obj::Int(lit.value)),
                syms: sy,
                last: Some(OP_CONSTANT),
            },
        ),
        Expr::Str(lit) => Ok(
            Emission {
                code: spec_make(OP_CONSTANT, seq![trunc16(cs.len() as int)]),
                consts: cs.push(Obj::Str(lit.value@)),
                syms: sy,
                last: Some(OP_CONSTANT),
            },
        ),
        Expr::Bool(lit) => Ok(
            Emission {
                code: spec_make(if lit.value {
                    OP_TRUE
                } else {
                    OP_FALSE
                }, Seq::empty()),
                consts: cs,
                syms: sy,
                last: Some(
                    if lit.value {
                        OP_TRUE
                    } else {
                        OP_FALSE
                    },
                ),
            },
        ),
        Expr::Ident(id) => match resolve_name(sy, id.value@) {
            Some(i) => Ok(
                Emission {
                    code: spec_make(OP_GET_GLOBAL, seq![trunc16(i)]),
                    consts: cs,
                    syms: sy,
                    last: Some(OP_GET_GLOBAL),
                },
            ),
            None => Err(CompileErrorModel::UndefinedVariable(id.value@)),
        },
        Expr::Pre(p) => match lower_expr(*p.right, pos, cs, sy) {
            Err(er) => Err(er),
            Ok(em) => if p.operator@ == "-"@ {
                Ok(
                    Emission {
                        code: em.code + spec_make(OP_MINUS, Seq::empty()),
                        consts: em.consts,
                        syms: em.syms,
                        last: Some(OP_MINUS),
                    },
                )
            } else if p.operator@ == "!"@ {
                Ok(
                    Emission {
                        code: em.code + spec_make(OP_BANG, Seq::empty()),
                        consts: em.consts,
                        syms: em.syms,
                        last: Some(OP_BANG),
                    },
                )
            } else {
                Err(CompileErrorModel::UnknownOperator(p.operator@))
            },
        },
        Expr::In(ix) => if ix.operator@ == "<"@ {
            match lower_expr(*ix.right, pos, cs, sy) {
                Err(er) => Err(er),
                Ok(em1) => match lower_expr(
                    *ix.left,
                    pos + em1.code.len(),
                    em1.consts,
                    em1.syms,
                ) {
                    Err(er) => Err(er),
                    Ok(em2) => Ok(
                        Emission {
                            code: em1.code + em2.code + spec_make(
                                OP_GREATER_THAN,
                                Seq::empty(),
                            ),
                            consts: em2.consts,
                            syms: em2.syms,
                            last: Some(OP_GREATER_THAN),
                        },
                    ),
                },
            }
        } else {
            match lower_expr(*ix.left, pos, cs, sy) {
                Err(er) => Err(er),
                Ok(em1) => match lower_expr(
                    *ix.right,
                    pos + em1.code.len(),
                    em1.consts,
                    em1.syms,
                ) {
                    Err(er) => Err(er),
                    Ok(em2) => match infix_opcode(ix.operator@) {
                        Some(opb) => Ok(
                            Emission {
                                code: em1.code + em2.code + spec_make(opb, Seq::empty()),
                                consts: em2.consts,
                                syms: em2.syms,
                                last: Some(opb),
                            },
                        ),
                        None => Err(CompileErrorModel::UnknownOperator(ix.operator@)),
                    },
                },
            }
        },
        Expr::If(ifx) => match lower_expr(*ifx.condition, pos, cs, sy) {
            Err(er) => Err(er),
            Ok(emc) => {
                let pos1 = pos + emc.code.len() + 3;
                match lower_block(ifx.consequence, pos1, emc.consts, emc.syms, Some(
                    OP_JUMP_NOT_TRUE,
                )) {
                    Err(er) => Err(er),
                    Ok(emk) => {
                        let kcode = if emk.last == Some(OP_POP) {
                            emk.code.drop_last()
                        } else {
                            emk.code
                        };
                        let pos2 = pos1 + kcode.len() + 3;
                        match ifx.alternative {
                            None => Ok(
                                Emission {
                                    code: emc.code + spec_make(
                                        OP_JUMP_NOT_TRUE,
                                        seq![trunc16(pos2)],
                                    ) + kcode + spec_make(OP_JUMP, seq![trunc16(pos2 + 1)])
                                        + spec_make(OP_NULL, Seq::empty()),
                                    consts: emk.consts,
                                    syms: emk.syms,
                                    last: Some(OP_NULL),
                                },
                            ),
                            Some(alt) => match lower_block(
                                alt,
                                pos2,
                                emk.consts,
                                emk.syms,
                                Some(OP_JUMP),
                            ) {
                                Err(er) => Err(er),
                                Ok(ema) => {
                                    let acode = if ema.last == Some(OP_POP) {
                                        ema.code.drop_last()
                                    } else {
                                        ema.code
                                    };
                                    let alast = if ema.last == Some(OP_POP) {
                                        None
                                    } else {
                                        ema.last
                                    };
                                    Ok(
                                        Emission {
                                            code: emc.code + spec_make(
                                                OP_JUMP_NOT_TRUE,
                                                seq![trunc16(pos2)],
                                            ) + kcode + spec_make(
                                                OP_JUMP,
                                                seq![trunc16(pos2 + acode.len())],
                                            ) + acode,
                                            consts: ema.consts,
                                            syms: ema.syms,
                                            last: alast,
                                        },
                                    )
                                },
                            },
                        }
                    },
                }
            },
        },
        Expr::Fn(_) => Err(CompileErrorModel::UnsupportedConstruct("function literal"@)),
        Expr::Call(_) => Err(CompileErrorModel::UnsupportedConstruct("call expression"@)),
        Expr::Array(_) => Err(CompileErrorModel::UnsupportedConstruct("array literal"@)),
        Expr::Index(_) => Err(CompileErrorModel::UnsupportedConstruct("index expression"@)),
    }
}

/// The lowering of one statement.
pub open spec fn lower_stmt(st: Stmt, pos: int, cs: Seq<Obj>, sy: Seq<Seq<char>>) -> Result<
    Emission,
    CompileErrorModel,
>
    decreases st,
{
    match st {
        Stmt::Expression(es) => match lower_expr(es.expr, pos, cs, sy) {
            Err(er) => Err(er),
            Ok(em) => Ok(
                Emission {
                    code: em.code + spec_make(OP_POP, Seq::empty()),
                    consts: em.consts,
                    syms: em.syms,
                    last: Some(OP_POP),
                },
            ),
        },
        Stmt::Let(ls) => match lower_expr(ls.value, pos, cs, sy) {
            Err(er) => Err(er),
            Ok(em) => {
                let (sy2, slot) = define_name(em.syms, ls.name@);
                Ok(
                    Emission {
                        code: em.code + spec_make(OP_SET_GLOBAL, seq![trunc16(slot)]),
                        consts: em.consts,
                        syms: sy2,
                        last: Some(OP_SET_GLOBAL),
                    },
                )
            },
        },
        Stmt::Return(_) => Err(CompileErrorModel::UnsupportedConstruct("return statement"@)),
    }
}

/// The lowering of a statement sequence, in source order. `last` is the
/// opcode of the instruction emitted before the sequence, passed through
/// where the sequence is empty.
pub open spec fn lower_stmts(
    ss: Seq<Stmt>,
    pos: int,
    cs: Seq<Obj>,
    sy: Seq<Seq<char>>,
    last: Option<u8>,
) -> Result<Emission, CompileErrorModel>
    decreases ss,
{
    if ss.len() == 0 {
        Ok(Emission { code: Seq::empty(), consts: cs, syms: sy, last })
    } else {
        match lower_stmt(ss[0], pos, cs, sy) {
            Err(er) => Err(er),
            Ok(em1) => match lower_stmts(
                ss.drop_first(),
                pos + em1.code.len(),
                em1.consts,
                em1.syms,
                em1.last,
            ) {
                Err(er) => Err(er),
                Ok(em2) => Ok(
                    Emission {
                        code: em1.code + em2.code,
                        consts: em2.consts,
                        syms: em2.syms,
                        last: em2.last,
                    },
                ),
            },
        }
    }
}

/// The lowering of a braced block.
pub open spec fn lower_block(
    b: BlockStatement,
    pos: int,
    cs: Seq<Obj>,
    sy: Seq<Seq<char>>,
    last: Option<u8>,
) -> Result<Emission, CompileErrorModel>
    decreases b,
{
    lower_stmts(b.stmts@, pos, cs, sy, last)
}

/// The lowering of any node the compiler can be handed.
pub open spec fn lower_node(
    node: MNode,
    pos: int,
    cs: Seq<Obj>,
    sy: Seq<Seq<char>>,
    last: Option<u8>,
) -> Result<Emission, CompileErrorModel> {
    match node {
        MNode::Prog(p) => lower_stmts(p.stmts@, pos, cs, sy, last),
        MNode::Stmt(s) => lower_stmt(s, pos, cs, sy),
        MNode::Expr(e) => lower_expr(e, pos, cs, sy),
    }
}

/// A successful statement-sequence lowering that emitted nothing left the
/// last-instruction marker as it was.
pub proof fn lemma_lower_stmts_progress(
    ss: Seq<Stmt>,
    pos: int,
    cs: Seq<Obj>,
    sy: Seq<Seq<char>>,
    last: Option<u8>,
)
    ensures
        lower_stmts(ss, pos, cs, sy, last) matches Ok(em) ==> (em.code.len() == 0 ==> em.last
            == last),
    decreases ss,
{
    if ss.len() > 0 {
        match lower_stmt(ss[0], pos, cs, sy) {
            Ok(em1) => {
                lemma_lower_stmts_progress(
                    ss.drop_first(),
                    pos + em1.code.len(),
                    em1.consts,
                    em1.syms,
                    em1.last,
                );
            },
            Err(_) => {},
        }
    }
}

/// Overwriting the two operand bytes of an instruction embedded between
/// `a` and `b` rewrites it to carry the new operand.
pub proof fn lemma_patch_operand(a: Seq<u8>, op: u8, x: u16, b: Seq<u8>, v: u16)
    requires
        has_operand(op),
    ensures
        (a + spec_make(op, seq![x]) + b).update(a.len() as int + 1, be_bytes(v)[0]).update(
            a.len() as int + 2,
            be_bytes(v)[1],
        ) == a + spec_make(op, seq![v]) + b,
{
    assert((a + spec_make(op, seq![x]) + b).update(a.len() as int + 1, be_bytes(v)[0]).update(
        a.len() as int + 2,
        be_bytes(v)[1],
    ) =~= a + spec_make(op, seq![v]) + b);
}

/// Dropping the last byte of an appended block drops it from the block.
pub proof fn lemma_concat_drop_last(x: Seq<u8>, y: Seq<u8>)
    requires
        y.len() > 0,
    ensures
        (x + y).drop_last() == x + y.drop_last(),
{
    assert((x + y).drop_last() =~= x + y.drop_last());
}

/// The instruction buffer a compiled conditional leaves behind: condition,
/// `JUMP_NOT_TRUE` with a placeholder, consequence, `JUMP` with a
/// placeholder, then the alternative's bytes, with both placeholders
/// overwritten by their final targets.
#[verifier::rlimit(100)]
pub proof fn lemma_if_assembly(
    base: Seq<u8>,
    c: Seq<u8>,
    k: Seq<u8>,
    tail: Seq<u8>,
    cur0: Seq<u8>,
    cur1: Seq<u8>,
    cur2: Seq<u8>,
    t1: u16,
    t2: u16,
    jnt_pos: int,
    jump_pos: int,
)
    requires
        cur0 == base + c + spec_make(OP_JUMP_NOT_TRUE, seq![0xffffu16]) + k + spec_make(
            OP_JUMP,
            seq![0xffffu16],
        ),
        jnt_pos == base.len() + c.len(),
        jump_pos == base.len() + c.len() + 3 + k.len(),
        cur1 == cur0.update(jnt_pos + 1, be_bytes(t1)[0]).update(jnt_pos + 2, be_bytes(t1)[1]),
        cur2 == (cur1 + tail).update(jump_pos + 1, be_bytes(t2)[0]).update(
            jump_pos + 2,
            be_bytes(t2)[1],
        ),
    ensures
        cur2 == base + (c + spec_make(OP_JUMP_NOT_TRUE, seq![t1]) + k + spec_make(
            OP_JUMP,
            seq![t2],
        ) + tail),
{
    assert(cur2 =~= base + (c + spec_make(OP_JUMP_NOT_TRUE, seq![t1]) + k + spec_make(
        OP_JUMP,
        seq![t2],
    ) + tail));
}

/// The models of the symbol table's names, elementwise.
pub open spec fn syms_view(v: Seq<String>) -> Seq<Seq<char>> {
    v.map_values(|s: String| s@)
}

/// Elementwise description of `syms_view`.
pub proof fn lemma_syms_view_index(v: Seq<String>)
    ensures
        syms_view(v).len() == v.len(),
        forall|j: int| 0 <= j < v.len() ==> syms_view(v)[j] == v[j]@,
{
}

/// Whether two strings hold the same characters.
fn str_is(s: &String, lit: &str) -> (r: bool)
    ensures
        r == (s@ == lit@),
{
    let a = s.as_str();
    let alen = a.unicode_len();
    let blen = lit.unicode_len();
    if alen != blen {
        return false;
    }
    let mut i: usize = 0;
    while i < alen
        invariant
            i <= alen,
            alen == a@.len() == lit@.len(),
            a@ == s@,
            forall|j: int| 0 <= j < i ==> a@[j] == lit@[j],
        decreases alen - i,
    {
        if a.get_char(i) != lit.get_char(i) {
            return false;
        }
        i += 1;
    }
    proof {
        assert(s@ =~= lit@);
    }
    true
}

/// The one-pass compiler's state: the instruction buffer, the constant
/// pool, the global symbol table (a name's slot is its index), the last
/// emitted instruction's opcode, and the opcode catalog.
pub struct Compiler {
    instructions: Instructions,
    constants: Vec<MObject>,
    symbols: Vec<String>,
    last_op: Option<u8>,
    code: MCode,
}

impl Compiler {
    /// The instruction buffer's bytes.
    pub closed spec fn code_model(&self) -> Seq<u8> {
        self.instructions@
    }

    /// The constant pool's values.
    pub closed spec fn consts_model(&self) -> Seq<Obj> {
        objs_view(self.constants@)
    }

    /// The symbol table's names, slot by slot.
    pub closed spec fn syms_model(&self) -> Seq<Seq<char>> {
        syms_view(self.symbols@)
    }

    /// The last emitted instruction's opcode.
    pub closed spec fn last_model(&self) -> Option<u8> {
        self.last_op
    }

    /// A fresh compiler: empty buffer, empty pool, empty symbol table.
    pub fn new() -> (r: Compiler)
        ensures
            r.code_model() == Seq::<u8>::empty(),
            r.consts_model() == Seq::<Obj>::empty(),
            r.syms_model() == Seq::<Seq<char>>::empty(),
            r.last_model() is None,
    {
        let r = Compiler {
            instructions: Vec::new(),
            constants: Vec::new(),
            symbols: Vec::new(),
            last_op: None,
            code: MCode::new(),
        };
        proof {
            assert(r.consts_model() =~= Seq::<Obj>::empty());
            assert(r.syms_model() =~= Seq::<Seq<char>>::empty());
        }
        r
    }

    /// Serialize one instruction, append it to the buffer, and return the
    /// byte offset at which it begins (the handle used for backpatching).
    fn emit(&mut self, op: u8, operands: Vec<u16>) -> (pos: usize)
        requires
            is_opcode(op),
            operands@.len() == operand_count(op),
        ensures
            pos == old(self).code_model().len(),
            final(self).code_model() == old(self).code_model() + spec_make(op, operands@),
            final(self).consts_model() == old(self).consts_model(),
            final(self).syms_model() == old(self).syms_model(),
            final(self).last_model() == Some(op),
    {
        let pos = self.instructions.len();
        let mut ins = self.code.make(op, &operands);
        self.instructions.append(&mut ins);
        self.last_op = Some(op);
        pos
    }

    /// Overwrite the two-byte operand of the instruction that begins at
    /// `op_pos` with a new big-endian value: the only mutation of already
    /// emitted bytes, used exclusively for jump-target backpatching.
    fn replace_operand(&mut self, op_pos: usize, operand: u16)
        requires
            op_pos + 3 <= old(self).code_model().len(),
        ensures
            final(self).code_model() == old(self).code_model().update(
                op_pos + 1,
                be_bytes(operand)[0],
            ).update(op_pos + 2, be_bytes(operand)[1]),
            final(self).consts_model() == old(self).consts_model(),
            final(self).syms_model() == old(self).syms_model(),
            final(self).last_model() == old(self).last_model(),
    {
        proof {
            vstd::std_specs::vec::axiom_spec_len(&self.instructions);
        }
        self.instructions[op_pos + 1] = (operand >> 8) as u8;
        self.instructions[op_pos + 2] = (operand & 0xff) as u8;
    }

    /// The slot of a name already in the symbol table, if any.
    fn resolve(&self, name: &String) -> (r: Option<usize>)
        ensures
            match r {
                Some(i) => resolve_name(self.syms_model(), name@) == Some(i as int),
                None => resolve_name(self.syms_model(), name@) is None,
            },
    {
        let mut i: usize = 0;
        while i < self.symbols.len()
            invariant
                i <= self.symbols@.len(),
                forall|j: int| 0 <= j < i ==> self.symbols@[j]@ != name@,
            decreases self.symbols@.len() - i,
        {
            if self.symbols[i].eq(name) {
                proof {
                    lemma_syms_view_index(self.symbols@);
                    lemma_resolve_name_first(self.syms_model(), name@);
                    assert(self.syms_model()[i as int] == name@);
                    match resolve_name(self.syms_model(), name@) {
                        Some(k) => {
                            if k < i as int {
                                assert(self.symbols@[k]@ != name@);
                                assert(false);
                            }
                            if k > i as int {
                                assert(self.syms_model()[i as int] != name@);
                                assert(false);
                            }
                        },
                        None => {
                            assert(self.syms_model()[i as int] != name@);
                            assert(false);
                        },
                    }
                }
                return Some(i);
            }
            i += 1;
        }
        proof {
            lemma_syms_view_index(self.symbols@);
            lemma_resolve_name_first(self.syms_model(), name@);
            match resolve_name(self.syms_model(), name@) {
                Some(k) => {
                    assert(self.symbols@[k]@ != name@);
                    assert(false);
                },
                None => {},
            }
        }
        None
    }

    /// The slot the symbol table assigns to a name: its existing slot, or
    /// the next free one (first binding wins).
    fn define(&mut self, name: &String) -> (slot: usize)
        ensures
            final(self).code_model() == old(self).code_model(),
            final(self).consts_model() == old(self).consts_model(),
            final(self).last_model() == old(self).last_model(),
            ({
                let (sy2, s) = define_name(old(self).syms_model(), name@);
                final(self).syms_model() == sy2 && slot as int == s
            }),
    {
        match self.resolve(name) {
            Some(i) => i,
            None => {
                let slot = self.symbols.len();
                self.symbols.push(name.clone());
                proof {
                    lemma_syms_view_index(old(self).symbols@);
                    lemma_syms_view_index(self.symbols@);
                    assert(self.syms_model() =~= old(self).syms_model().push(name@));
                }
                slot
            },
        }
    }

    /// Compile one node, appending its lowering to the instruction buffer
    /// and growing the constant pool and symbol table as it directs. On an
    /// error, compilation aborts at once and the error names exactly what
    /// the lowering rejects.
    pub fn compile(&mut self, node: MNode) -> (r: Result<(), CompileError>)
        ensures
            match lower_node(
                node,
                old(self).code_model().len() as int,
                old(self).consts_model(),
                old(self).syms_model(),
                old(self).last_model(),
            ) {
                Ok(em) => r is Ok && final(self).code_model() == old(self).code_model() + em.code
                    && final(self).consts_model() == em.consts
                    && final(self).syms_model() == em.syms
                    && final(self).last_model() == em.last,
                Err(er) => r matches Err(e) && e@ == er,
            },
    {
        match node {
            MNode::Prog(p) => self.compile_stmts(&p.stmts),
            MNode::Stmt(s) => self.compile_stmt(&s),
            MNode::Expr(e) => self.compile_expr(&e),
        }
    }

    /// A snapshot of the instruction buffer and constant pool compiled so
    /// far: the value the virtual machine consumes.
    pub fn bytecode(&self) -> (r: Bytecode)
        ensures
            r.instructions@ == self.code_model(),
            objs_view(r.constants@) == self.consts_model(),
    {
        let mut instructions: Vec<u8> = Vec::new();
        let mut i: usize = 0;
        while i < self.instructions.len()
            invariant
                i <= self.instructions@.len(),
                instructions@ == self.instructions@.take(i as int),
            decreases self.instructions@.len() - i,
        {
            instructions.push(self.instructions[i]);
            i += 1;
            proof {
                assert(instructions@ =~= self.instructions@.take(i as int));
            }
        }
        proof {
            assert(instructions@ =~= self.instructions@);
        }
        let mut constants: Vec<MObject> = Vec::new();
        let mut k: usize = 0;
        while k < self.constants.len()
            invariant
                k <= self.constants@.len(),
                constants@.len() == k,
                forall|j: int| 0 <= j < k ==> constants@[j]@ == self.constants@[j]@,
            decreases self.constants@.len() - k,
        {
            constants.push(self.constants[k].clone());
            k += 1;
        }
        proof {
            lemma_objs_view_congruent(constants@, self.constants@);
        }
        Bytecode { instructions, constants }
    }

    /// Compile a statement sequence in source order.
    #[verifier::rlimit(100)]
    #[verifier::spinoff_prover]
    fn compile_stmts(&mut self, stmts: &Vec<Stmt>) -> (r: Result<(), CompileError>)
        ensures
            match lower_stmts(
                stmts@,
                old(self).code_model().len() as int,
                old(self).consts_model(),
                old(self).syms_model(),
                old(self).last_model(),
            ) {
                Ok(em) => r is Ok && final(self).code_model() == old(self).code_model() + em.code
                    && final(self).consts_model() == em.consts
                    && final(self).syms_model() == em.syms
                    && final(self).last_model() == em.last,
                Err(er) => r matches Err(e) && e@ == er,
            },
        decreases stmts@, stmts@.len() + 1,
    {
        proof {
            assert(stmts@.skip(0int) =~= stmts@);
        }
        let r = self.compile_stmts_from(stmts, 0);
        proof {
            match lower_stmts(
                stmts@,
                old(self).code_model().len() as int,
                old(self).consts_model(),
                old(self).syms_model(),
                old(self).last_model(),
            ) {
                Ok(em) => {
                    assert(old(self).code_model() + em.code =~= old(self).code_model()
                        + em.code);
                },
                Err(_) => {},
            }
        }
        r
    }

    /// Compile the statements from index `i` on, in source order.
    #[verifier::rlimit(100)]
    #[verifier::spinoff_prover]
    fn compile_stmts_from(&mut self, stmts: &Vec<Stmt>, i: usize) -> (r: Result<(), CompileError>)
        requires
            i <= stmts@.len(),
        ensures
            match lower_stmts(
                stmts@.skip(i as int),
                old(self).code_model().len() as int,
                old(self).consts_model(),
                old(self).syms_model(),
                old(self).last_model(),
            ) {
                Ok(em) => r is Ok && final(self).code_model() == old(self).code_model() + em.code
                    && final(self).consts_model() == em.consts
                    && final(self).syms_model() == em.syms
                    && final(self).last_model() == em.last,
                Err(er) => r matches Err(e) && e@ == er,
            },
        decreases stmts@, stmts@.len() - i,
    {
        if i >= stmts.len() {
            proof {
                assert(stmts@.skip(i as int) =~= Seq::<Stmt>::empty());
                assert(old(self).code_model() + Seq::<u8>::empty() =~= old(self).code_model());
            }
            return Ok(());
        }
        let ghost rem = stmts@.skip(i as int);
        proof {
            assert(rem.len() > 0);
            assert(rem[0] == stmts@[i as int]);
            assert(rem.drop_first() =~= stmts@.skip(i as int + 1));
        }
        match self.compile_stmt(&stmts[i]) {
            Ok(()) => {},
            Err(e) => {
                return Err(e);
            },
        }
        let ghost em1 = lower_stmt(
            rem[0],
            old(self).code_model().len() as int,
            old(self).consts_model(),
            old(self).syms_model(),
        )->Ok_0;
        let ghost mid = *self;
        let r = self.compile_stmts_from(stmts, i + 1);
        proof {
            match lower_stmts(
                stmts@.skip(i as int + 1),
                mid.code_model().len() as int,
                mid.consts_model(),
                mid.syms_model(),
                mid.last_model(),
            ) {
                Ok(em2) => {
                    assert(self.code_model() =~= old(self).code_model() + (em1.code
                        + em2.code));
                },
                Err(_) => {},
            }
        }
        r
    }

    /// Compile a braced block.
    fn compile_block(&mut self, b: &BlockStatement) -> (r: Result<(), CompileError>)
        ensures
            match lower_block(
                *b,
                old(self).code_model().len() as int,
                old(self).consts_model(),
                old(self).syms_model(),
                old(self).last_model(),
            ) {
                Ok(em) => r is Ok && final(self).code_model() == old(self).code_model() + em.code
                    && final(self).consts_model() == em.consts
                    && final(self).syms_model() == em.syms
                    && final(self).last_model() == em.last,
                Err(er) => r matches Err(e) && e@ == er,
            },
        decreases *b,
    {
        self.compile_stmts(&b.stmts)
    }

    /// Compile one statement.
    #[verifier::rlimit(100)]
    #[verifier::spinoff_prover]
    fn compile_stmt(&mut self, st: &Stmt) -> (r: Result<(), CompileError>)
        ensures
            match lower_stmt(
                *st,
                old(self).code_model().len() as int,
                old(self).consts_model(),
                old(self).syms_model(),
            ) {
                Ok(em) => r is Ok && final(self).code_model() == old(self).code_model() + em.code
                    && final(self).consts_model() == em.consts
                    && final(self).syms_model() == em.syms
                    && final(self).last_model() == em.last,
                Err(er) => r matches Err(e) && e@ == er,
            },
        decreases *st,
    {
        proof {
            reveal(lower_expr);
        }
        match st {
            Stmt::Expression(es) => {
                match self.compile_expr(&es.expr) {
                    Ok(()) => {},
                    Err(e) => {
                        return Err(e);
                    },
                }
                self.emit(OP_POP, vec![]);
                proof {
                    let em = lower_expr(
                        es.expr,
                        old(self).code_model().len() as int,
                        old(self).consts_model(),
                        old(self).syms_model(),
                    )->Ok_0;
                    assert(self.code_model() =~= old(self).code_model() + (em.code + spec_make(
                        OP_POP,
                        Seq::empty(),
                    )));
                }
                Ok(())
            },
            Stmt::Let(ls) => {
                match self.compile_expr(&ls.value) {
                    Ok(()) => {},
                    Err(e) => {
                        return Err(e);
                    },
                }
                let slot = self.define(&ls.name);
                let operand = (slot % 65536) as u16;
                self.emit(OP_SET_GLOBAL, vec![operand]);
                proof {
                    let em = lower_expr(
                        ls.value,
                        old(self).code_model().len() as int,
                        old(self).consts_model(),
                        old(self).syms_model(),
                    )->Ok_0;
                    assert(self.code_model() =~= old(self).code_model() + (em.code + spec_make(
                        OP_SET_GLOBAL,
                        seq![trunc16(slot as int)],
                    )));
                }
                Ok(())
            },
            Stmt::Return(_) => Err(
                CompileError::UnsupportedConstruct("return statement".to_owned()),
            ),
        }
    }


    /// Compile a conditional expression: the condition, a `JUMP_NOT_TRUE`
    /// over the consequence, the consequence with a trailing `POP` removed
    /// (a branch leaves its value on the stack), a `JUMP` over the
    /// alternative, and the alternative (or a `NULL` when there is none),
    /// both jump targets backpatched once their offsets are known.
    #[verifier::rlimit(100)]
    #[verifier::spinoff_prover]
    fn compile_if(&mut self, ifx: &crate::ast::IfExpr) -> (r: Result<(), CompileError>)
        ensures
            match lower_expr(
                Expr::If(*ifx),
                old(self).code_model().len() as int,
                old(self).consts_model(),
                old(self).syms_model(),
            ) {
                Ok(em) => r is Ok && final(self).code_model() == old(self).code_model() + em.code
                    && final(self).consts_model() == em.consts
                    && final(self).syms_model() == em.syms
                    && final(self).last_model() == em.last,
                Err(er) => r matches Err(e2) && e2@ == er,
            },
        decreases *ifx,
    {
        proof {
            reveal(lower_expr);
        }
        let ghost base = old(self).code_model();
        let ghost pos0 = base.len() as int;
        let ghost cs0 = old(self).consts_model();
        let ghost sy0 = old(self).syms_model();

        match self.compile_expr(&ifx.condition) {
            Ok(()) => {},
            Err(e2) => {
                return Err(e2);
            },
        }
        let ghost emc = lower_expr(*ifx.condition, pos0, cs0, sy0)->Ok_0;
        let jnt_pos = self.emit(OP_JUMP_NOT_TRUE, vec![0xffff]);
        match self.compile_block(&ifx.consequence) {
            Ok(()) => {},
            Err(e2) => {
                return Err(e2);
            },
        }
        proof {
            lemma_lower_stmts_progress(
                ifx.consequence.stmts@,
                pos0 + emc.code.len() + 3,
                emc.consts,
                emc.syms,
                Some(OP_JUMP_NOT_TRUE),
            );
        }
        let ghost emk = lower_block(
            ifx.consequence,
            pos0 + emc.code.len() + 3,
            emc.consts,
            emc.syms,
            Some(OP_JUMP_NOT_TRUE),
        )->Ok_0;
        let strip = match self.last_op {
            Some(op2) => op2 == OP_POP,
            None => false,
        };
        if strip {
            let _removed = self.instructions.pop();
            self.last_op = None;
        }
        let ghost kcode = if emk.last == Some(OP_POP) {
            emk.code.drop_last()
        } else {
            emk.code
        };
        proof {
            if emk.last == Some(OP_POP) {
                lemma_concat_drop_last(
                    base + emc.code + spec_make(OP_JUMP_NOT_TRUE, seq![0xffffu16]),
                    emk.code,
                );
            }
            assert(self.code_model() == base + emc.code + spec_make(
                OP_JUMP_NOT_TRUE,
                seq![0xffffu16],
            ) + kcode);
        }
        let jump_pos = self.emit(OP_JUMP, vec![0xffff]);
        let ghost cur0 = self.code_model();
        let after_cons = self.instructions.len();
        let t1 = (after_cons % 65536) as u16;
        self.replace_operand(jnt_pos, t1);
        let ghost cur1 = self.code_model();
        match &ifx.alternative {
            None => {
                self.emit(OP_NULL, vec![]);
                let t2_src = self.instructions.len();
                let t2 = (t2_src % 65536) as u16;
                self.replace_operand(jump_pos, t2);
                proof {
                    lemma_if_assembly(
                        base,
                        emc.code,
                        kcode,
                        spec_make(OP_NULL, Seq::empty()),
                        cur0,
                        cur1,
                        self.code_model(),
                        t1,
                        t2,
                        jnt_pos as int,
                        jump_pos as int,
                    );
                    assert(t1 == trunc16(pos0 + emc.code.len() + 3 + kcode.len() + 3));
                    assert(t2 == trunc16(pos0 + emc.code.len() + 3 + kcode.len() + 3 + 1));
                }
                Ok(())
            },
            Some(alt) => {
                match self.compile_block(alt) {
                    Ok(()) => {},
                    Err(e2) => {
                        return Err(e2);
                    },
                }
                proof {
                    lemma_lower_stmts_progress(
                        alt.stmts@,
                        pos0 + emc.code.len() + 3 + kcode.len() + 3,
                        emk.consts,
                        emk.syms,
                        Some(OP_JUMP),
                    );
                }
                let ghost ema = lower_block(
                    *alt,
                    pos0 + emc.code.len() + 3 + kcode.len() + 3,
                    emk.consts,
                    emk.syms,
                    Some(OP_JUMP),
                )->Ok_0;
                let strip2 = match self.last_op {
                    Some(op2) => op2 == OP_POP,
                    None => false,
                };
                if strip2 {
                    let _removed = self.instructions.pop();
                    self.last_op = None;
                }
                let ghost acode = if ema.last == Some(OP_POP) {
                    ema.code.drop_last()
                } else {
                    ema.code
                };
                proof {
                    if ema.last == Some(OP_POP) {
                        lemma_concat_drop_last(cur1, ema.code);
                    }
                    assert(self.code_model() == cur1 + acode);
                }
                let t2_src = self.instructions.len();
                let t2 = (t2_src % 65536) as u16;
                self.replace_operand(jump_pos, t2);
                proof {
                    lemma_if_assembly(
                        base,
                        emc.code,
                        kcode,
                        acode,
                        cur0,
                        cur1,
                        self.code_model(),
                        t1,
                        t2,
                        jnt_pos as int,
                        jump_pos as int,
                    );
                    assert(t1 == trunc16(pos0 + emc.code.len() + 3 + kcode.len() + 3));
                    assert(t2 == trunc16(
                        pos0 + emc.code.len() + 3 + kcode.len() + 3 + acode.len(),
                    ));
                }
                Ok(())
            },
        }
    }

    /// Compile one expression.
    #[verifier::rlimit(100)]
    fn compile_expr(&mut self, e: &Expr) -> (r: Result<(), CompileError>)
        ensures
            match lower_expr(
                *e,
                old(self).code_model().len() as int,
                old(self).consts_model(),
                old(self).syms_model(),
            ) {
                Ok(em) => r is Ok && final(self).code_model() == old(self).code_model() + em.code
                    && final(self).consts_model() == em.consts
                    && final(self).syms_model() == em.syms
                    && final(self).last_model() == em.last,
                Err(er) => r matches Err(e2) && e2@ == er,
            },
        decreases *e,
    {
        proof {
            reveal(lower_expr);
        }
        let ghost base = old(self).code_model();
        let ghost pos0 = base.len() as int;
        let ghost cs0 = old(self).consts_model();
        let ghost sy0 = old(self).syms_model();
        match e {
            Expr::Int(lit) => {
                let literal = Integer { value: lit.value };
                let idx = self.constants.len();
                self.constants.push(MObject::Int(literal));
                let operand = (idx % 65536) as u16;
                proof {
                    lemma_objs_view_push(old(self).constants@, MObject::Int(literal));
                }
                self.emit(OP_CONSTANT, vec![operand]);
                Ok(())
            },
            Expr::Str(lit) => {
                let literal = MString { value: lit.value.clone() };
                let idx = self.constants.len();
                self.constants.push(MObject::Str(literal));
                let operand = (idx % 65536) as u16;
                proof {
                    lemma_objs_view_push(
                        old(self).constants@,
                        MObject::Str(MString { value: lit.value }),
                    );
                }
                self.emit(OP_CONSTANT, vec![operand]);
                Ok(())
            },
            Expr::Bool(lit) => {
                if lit.value {
                    self.emit(OP_TRUE, vec![]);
                } else {
                    self.emit(OP_FALSE, vec![]);
                }
                Ok(())
            },
            Expr::Ident(id) => {
                match self.resolve(&id.value) {
                    Some(slot) => {
                        let operand = (slot % 65536) as u16;
                        proof {
                            lemma_resolve_name_first(sy0, id.value@);
                        }
                        self.emit(OP_GET_GLOBAL, vec![operand]);
                        Ok(())
                    },
                    None => Err(CompileError::UndefinedVariable(id.value.clone())),
                }
            },
            Expr::Pre(p) => {
                match self.compile_expr(&p.right) {
                    Ok(()) => {},
                    Err(e2) => {
                        return Err(e2);
                    },
                }
                let ghost em1 = lower_expr(*p.right, pos0, cs0, sy0)->Ok_0;
                if str_is(&p.operator, "-") {
                    self.emit(OP_MINUS, vec![]);
                    proof {
                        assert(self.code_model() =~= base + (em1.code + spec_make(
                            OP_MINUS,
                            Seq::empty(),
                        )));
                    }
                    Ok(())
                } else if str_is(&p.operator, "!") {
                    self.emit(OP_BANG, vec![]);
                    proof {
                        assert(self.code_model() =~= base + (em1.code + spec_make(
                            OP_BANG,
                            Seq::empty(),
                        )));
                    }
                    Ok(())
                } else {
                    Err(CompileError::UnknownOperator(p.operator.clone()))
                }
            },
            Expr::In(ix) => {
                if str_is(&ix.operator, "<") {
                    match self.compile_expr(&ix.right) {
                        Ok(()) => {},
                        Err(e2) => {
                            return Err(e2);
                        },
                    }
                    let ghost em1 = lower_expr(*ix.right, pos0, cs0, sy0)->Ok_0;
                    match self.compile_expr(&ix.left) {
                        Ok(()) => {},
                        Err(e2) => {
                            return Err(e2);
                        },
                    }
                    let ghost em2 = lower_expr(
                        *ix.left,
                        pos0 + em1.code.len(),
                        em1.consts,
                        em1.syms,
                    )->Ok_0;
                    self.emit(OP_GREATER_THAN, vec![]);
                    proof {
                        assert(self.code_model() =~= base + (em1.code + em2.code + spec_make(
                            OP_GREATER_THAN,
                            Seq::empty(),
                        )));
                    }
                    Ok(())
                } else {
                    match self.compile_expr(&ix.left) {
                        Ok(()) => {},
                        Err(e2) => {
                            return Err(e2);
                        },
                    }
                    let ghost em1 = lower_expr(*ix.left, pos0, cs0, sy0)->Ok_0;
                    match self.compile_expr(&ix.right) {
                        Ok(()) => {},
                        Err(e2) => {
                            return Err(e2);
                        },
                    }
                    let ghost em2 = lower_expr(
                        *ix.right,
                        pos0 + em1.code.len(),
                        em1.consts,
                        em1.syms,
                    )->Ok_0;
                    let opb: u8 = if str_is(&ix.operator, "+") {
                        OP_ADD
                    } else if str_is(&ix.operator, "-") {
                        OP_SUB
                    } else if str_is(&ix.operator, "*") {
                        OP_MUL
                    } else if str_is(&ix.operator, "/") {
                        OP_DIV
                    } else if str_is(&ix.operator, "==") {
                        OP_EQUAL
                    } else if str_is(&ix.operator, "!=") {
                        OP_NOT_EQUAL
                    } else if str_is(&ix.operator, ">") {
                        OP_GREATER_THAN
                    } else {
                        return Err(CompileError::UnknownOperator(ix.operator.clone()));
                    };
                    self.emit(opb, vec![]);
                    proof {
                        assert(self.code_model() =~= base + (em1.code + em2.code + spec_make(
                            opb,
                            Seq::empty(),
                        )));
                    }
                    Ok(())
                }
            },
            Expr::If(ifx) => self.compile_if(ifx),
            Expr::Fn(_) => Err(CompileError::UnsupportedConstruct("function literal".to_owned())),
            Expr::Call(_) => Err(CompileError::UnsupportedConstruct("call expression".to_owned())),
            Expr::Array(_) => Err(CompileError::UnsupportedConstruct("array literal".to_owned())),
            Expr::Index(_) => Err(
                CompileError::UnsupportedConstruct("index expression".to_owned()),
            ),
        }
    }
}

} // verus!
