use monkey_vm::ast::{
    Expr, ExpressionStatement, FnLiteral, BlockStatement, Identifier, InfixExpr, IntLiteral,
    MNode, PrefixExpr, Program, ReturnStatement, Stmt,
};
use monkey_vm::code::{MCode, OP_ADD, OP_CONSTANT, OP_DIV, OP_MUL, OP_POP, OP_SUB};
use monkey_vm::compiler::Compiler;
use monkey_vm::errors::{CodeError, CompileError};
use monkey_vm::object::{Integer, MObject, MString};
use monkey_vm::vm::Vm;

fn int_lit(n: i128) -> Expr {
    Expr::Int(IntLiteral { value: n })
}

fn infix(op: &str, left: Expr, right: Expr) -> Expr {
    Expr::In(InfixExpr {
        operator: op.to_string(),
        left: Box::new(left),
        right: Box::new(right),
    })
}

fn expr_stmt(e: Expr) -> Stmt {
    Stmt::Expression(ExpressionStatement { expr: e })
}

fn i_to_o(n: i128) -> MObject {
    MObject::Int(Integer { value: n })
}

fn run_compiler_test(op_text: &str, opcode: u8) {
    let code = MCode::new();
    let mut compiler = Compiler::new();
    compiler
        .compile(MNode::Prog(Program {
            stmts: vec![expr_stmt(infix(op_text, int_lit(1), int_lit(2)))],
        }))
        .unwrap();
    let bytecode = compiler.bytecode();
    let expected: Vec<Vec<u8>> = vec![
        code.make(OP_CONSTANT, &vec![0]),
        code.make(OP_CONSTANT, &vec![1]),
        code.make(opcode, &vec![]),
        code.make(OP_POP, &vec![]),
    ];
    let expected: Vec<u8> = expected.into_iter().flatten().collect();
    assert_eq!(expected, bytecode.instructions);
    assert_eq!(vec![i_to_o(1), i_to_o(2)], bytecode.constants);
}

#[test]
fn compiler_test_integer_arithmetic() {
    run_compiler_test("+", OP_ADD);
    run_compiler_test("-", OP_SUB);
    run_compiler_test("*", OP_MUL);
    run_compiler_test("/", OP_DIV);
}

#[test]
fn test_one_plus_two_runs_to_three() {
    // "1 + 2" compiles to constants [1, 2] and CONSTANT 0, CONSTANT 1, ADD, POP.
    let mut compiler = Compiler::new();
    compiler
        .compile(MNode::Prog(Program {
            stmts: vec![expr_stmt(infix("+", int_lit(1), int_lit(2)))],
        }))
        .unwrap();
    let bytecode = compiler.bytecode();
    assert_eq!(vec![0u8, 0, 0, 0, 0, 1, 1, 17], bytecode.instructions);
    let mut vm = Vm::new(bytecode);
    vm.run().unwrap();
    assert_eq!(&i_to_o(3), vm.stack_top().unwrap());
}

#[test]
fn test_undefined_variable_is_rejected() {
    let mut compiler = Compiler::new();
    let r = compiler.compile(MNode::Expr(Expr::Ident(Identifier {
        value: "nobody".to_string(),
    })));
    assert_eq!(
        r,
        Err(CompileError::UndefinedVariable("nobody".to_string()))
    );
}

#[test]
fn test_unknown_operator_is_rejected() {
    let mut compiler = Compiler::new();
    let r = compiler.compile(MNode::Expr(infix("&", int_lit(1), int_lit(2))));
    assert_eq!(r, Err(CompileError::UnknownOperator("&".to_string())));
    let mut compiler = Compiler::new();
    let r = compiler.compile(MNode::Expr(Expr::Pre(PrefixExpr {
        operator: "~".to_string(),
        right: Box::new(int_lit(1)),
    })));
    assert_eq!(r, Err(CompileError::UnknownOperator("~".to_string())));
}

#[test]
fn test_unsupported_constructs_are_rejected() {
    let mut compiler = Compiler::new();
    let r = compiler.compile(MNode::Stmt(Stmt::Return(ReturnStatement { value: int_lit(1) })));
    assert_eq!(
        r,
        Err(CompileError::UnsupportedConstruct("return statement".to_string()))
    );
    let mut compiler = Compiler::new();
    let r = compiler.compile(MNode::Expr(Expr::Fn(FnLiteral {
        params: vec![],
        body: BlockStatement { stmts: vec![] },
    })));
    assert_eq!(
        r,
        Err(CompileError::UnsupportedConstruct("function literal".to_string()))
    );
}

#[test]
fn test_make_encodes_big_endian() {
    let code = MCode::new();
    assert_eq!(vec![0u8, 255, 254], code.make(OP_CONSTANT, &vec![65534]));
    assert_eq!(vec![1u8], code.make(OP_ADD, &vec![]));
}

#[test]
fn test_lookup_rejects_undefined_opcodes() {
    let code = MCode::new();
    let def = code.lookup(OP_CONSTANT).unwrap();
    assert_eq!(def.name, "CONSTANT".to_string());
    assert_eq!(def.operand_widths, vec![2usize]);
    assert_eq!(code.lookup(200), Err(CodeError::UndefinedOpcode(200)));
}

#[test]
fn test_string_constants_are_pooled() {
    let mut compiler = Compiler::new();
    compiler
        .compile(MNode::Expr(Expr::Str(monkey_vm::ast::StringLiteral {
            value: "monkey".to_string(),
        })))
        .unwrap();
    let bytecode = compiler.bytecode();
    assert_eq!(
        vec![MObject::Str(MString { value: "monkey".to_string() })],
        bytecode.constants
    );
}
