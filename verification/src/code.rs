//! The instruction set: the opcode catalog, deterministic encoding of an
//! opcode with its fixed-width big-endian operand, and decoding of operands
//! out of an instruction stream.

use vstd::prelude::*;

use crate::errors::CodeError;

verus! {

pub const OP_CONSTANT: u8 = 0;
pub const OP_ADD: u8 = 1;
pub const OP_SUB: u8 = 2;
pub const OP_MUL: u8 = 3;
pub const OP_DIV: u8 = 4;
pub const OP_TRUE: u8 = 5;
pub const OP_FALSE: u8 = 6;
pub const OP_EQUAL: u8 = 7;
pub const OP_NOT_EQUAL: u8 = 8;
pub const OP_GREATER_THAN: u8 = 9;
pub const OP_MINUS: u8 = 10;
pub const OP_BANG: u8 = 11;
pub const OP_JUMP_NOT_TRUE: u8 = 12;
pub const OP_JUMP: u8 = 13;
pub const OP_SET_GLOBAL: u8 = 14;
pub const OP_GET_GLOBAL: u8 = 15;
pub const OP_NULL: u8 = 16;
pub const OP_POP: u8 = 17;

/// The flat byte sequence the virtual machine executes.
pub type Instructions = Vec<u8>;

/// Whether the byte has a definition in the opcode catalog.
pub open spec fn is_opcode(op: u8) -> bool {
    op <= OP_POP
}

/// Whether the opcode carries an operand. Every current opcode has either no
/// operand or one two-byte operand.
pub open spec fn has_operand(op: u8) -> bool {
    op == OP_CONSTANT || op == OP_JUMP_NOT_TRUE || op == OP_JUMP || op == OP_SET_GLOBAL
        || op == OP_GET_GLOBAL
}

/// How many operands the opcode's definition lists.
pub open spec fn operand_count(op: u8) -> nat {
    if has_operand(op) {
        1
    } else {
        0
    }
}

/// The two big-endian bytes of a sixteen-bit value: high byte first.
pub open spec fn be_bytes(v: u16) -> Seq<u8> {
    seq![(v >> 8) as u8, (v & 0xff) as u8]
}

/// The unsigned value read big-endian from the two bytes at `i`.
pub open spec fn be_read(s: Seq<u8>, i: int) -> int
    recommends
        0 <= i && i + 2 <= s.len(),
{
    s[i] * 256 + s[i + 1]
}

/// A value reduced to the sixteen bits an operand can carry.
pub open spec fn trunc16(n: int) -> u16 {
    (n % 0x10000) as u16
}

/// The encoding of one instruction: the opcode byte, then the operand (if
/// the opcode has one) in two big-endian bytes.
pub open spec fn spec_make(op: u8, operands: Seq<u16>) -> Seq<u8>
    recommends
        operands.len() == operand_count(op),
{
    if has_operand(op) {
        seq![op] + be_bytes(operands[0])
    } else {
        seq![op]
    }
}

/// Reading back the two big-endian bytes of a value gives the value.
pub proof fn lemma_be_roundtrip(v: u16)
    ensures
        be_read(be_bytes(v), 0) == v,
{
    assert(((v >> 8) as u8) * 256 + ((v & 0xff) as u8) == v) by (bit_vector);
}

/// The mnemonic under which a defined opcode is disassembled.
pub open spec fn opcode_name(op: u8) -> Seq<char>
    recommends
        is_opcode(op),
{
    if op == OP_CONSTANT {
        "CONSTANT"@
    } else if op == OP_ADD {
        "ADD"@
    } else if op == OP_SUB {
        "SUB"@
    } else if op == OP_MUL {
        "MUL"@
    } else if op == OP_DIV {
        "DIV"@
    } else if op == OP_TRUE {
        "TRUE"@
    } else if op == OP_FALSE {
        "FALSE"@
    } else if op == OP_EQUAL {
        "EQUAL"@
    } else if op == OP_NOT_EQUAL {
        "NOT_EQUAL"@
    } else if op == OP_GREATER_THAN {
        "GREATER_THAN"@
    } else if op == OP_MINUS {
        "MINUS"@
    } else if op == OP_BANG {
        "BANG"@
    } else if op == OP_JUMP_NOT_TRUE {
        "JUMP_NOT_TRUE"@
    } else if op == OP_JUMP {
        "JUMP"@
    } else if op == OP_SET_GLOBAL {
        "SET_GLOBAL"@
    } else if op == OP_GET_GLOBAL {
        "GET_GLOBAL"@
    } else if op == OP_NULL {
        "NULL"@
    } else {
        "POP"@
    }
}

/// An opcode's definition: its mnemonic and the byte width of each operand.
#[derive(PartialEq, Eq, Debug)]
pub struct Definition {
    pub name: String,
    pub operand_widths: Vec<usize>,
}

/// The opcode catalog.
pub struct MCode {}

impl MCode {
    pub fn new() -> (r: MCode) {
        MCode {  }
    }

    /// The definition of a known opcode, or `UndefinedOpcode` for a byte
    /// outside the catalog.
    pub fn lookup(&self, op: u8) -> (r: Result<Definition, CodeError>)
        ensures
            is_opcode(op) ==> (r matches Ok(d) && d.name@ == opcode_name(op)
                && d.operand_widths@ == (if has_operand(op) {
                seq![2usize]
            } else {
                Seq::<usize>::empty()
            })),
            !is_opcode(op) ==> r == Err::<Definition, CodeError>(CodeError::UndefinedOpcode(op)),
    {
        let name: &str = if op == OP_CONSTANT {
            "CONSTANT"
        } else if op == OP_ADD {
            "ADD"
        } else if op == OP_SUB {
            "SUB"
        } else if op == OP_MUL {
            "MUL"
        } else if op == OP_DIV {
            "DIV"
        } else if op == OP_TRUE {
            "TRUE"
        } else if op == OP_FALSE {
            "FALSE"
        } else if op == OP_EQUAL {
            "EQUAL"
        } else if op == OP_NOT_EQUAL {
            "NOT_EQUAL"
        } else if op == OP_GREATER_THAN {
            "GREATER_THAN"
        } else if op == OP_MINUS {
            "MINUS"
        } else if op == OP_BANG {
            "BANG"
        } else if op == OP_JUMP_NOT_TRUE {
            "JUMP_NOT_TRUE"
        } else if op == OP_JUMP {
            "JUMP"
        } else if op == OP_SET_GLOBAL {
            "SET_GLOBAL"
        } else if op == OP_GET_GLOBAL {
            "GET_GLOBAL"
        } else if op == OP_NULL {
            "NULL"
        } else if op == OP_POP {
            "POP"
        } else {
            return Err(CodeError::UndefinedOpcode(op));
        };
        let mut operand_widths: Vec<usize> = Vec::new();
        if op == OP_CONSTANT || op == OP_JUMP_NOT_TRUE || op == OP_JUMP || op == OP_SET_GLOBAL
            || op == OP_GET_GLOBAL {
            operand_widths.push(2);
        }
        Ok(Definition { name: name.to_owned(), operand_widths })
    }

    /// Serialize one instruction: the opcode byte followed by each operand,
    /// big-endian, at its defined width.
    pub fn make(&self, op: u8, operands: &Vec<u16>) -> (r: Vec<u8>)
        requires
            is_opcode(op),
            operands@.len() == operand_count(op),
        ensures
            r@ == spec_make(op, operands@),
    {
        let mut r: Vec<u8> = Vec::new();
        r.push(op);
        if op == OP_CONSTANT || op == OP_JUMP_NOT_TRUE || op == OP_JUMP || op == OP_SET_GLOBAL
            || op == OP_GET_GLOBAL {
            let v = operands[0];
            r.push((v >> 8) as u8);
            r.push((v & 0xff) as u8);
            assert(r@ =~= spec_make(op, operands@));
        } else {
            assert(r@ =~= spec_make(op, operands@));
        }
        r
    }
}

/// The unsigned integer stored big-endian in the two bytes at `offset`.
pub fn read_u16_be(ins: &Vec<u8>, offset: usize) -> (r: u16)
    requires
        offset + 2 <= ins@.len(),
    ensures
        r == be_read(ins@, offset as int),
{
    proof {
        vstd::std_specs::vec::axiom_spec_len(ins);
    }
    let hi = ins[offset];
    let lo = ins[offset + 1];
    (hi as u16) * 256 + (lo as u16)
}

} // verus!
