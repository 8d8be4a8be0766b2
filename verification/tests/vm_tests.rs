use monkey_vm::ast::{
    BlockStatement, BooleanLiteral, Expr, ExpressionStatement, Identifier, IfExpr, InfixExpr,
    IntLiteral, LetStatement, MNode, PrefixExpr, Program, Stmt, StringLiteral,
};
use monkey_vm::compiler::{Bytecode, Compiler};
use monkey_vm::errors::VmError;
use monkey_vm::object::{Boolean, Integer, MObject, MString};
use monkey_vm::vm::Vm;

fn int_lit(n: i128) -> Expr {
    Expr::Int(IntLiteral { value: n })
}

fn boolean(b: bool) -> Expr {
    Expr::Bool(BooleanLiteral { value: b })
}

fn string(s: &str) -> Expr {
    Expr::Str(StringLiteral { value: s.to_string() })
}

fn ident(name: &str) -> Expr {
    Expr::Ident(Identifier { value: name.to_string() })
}

fn infix(op: &str, left: Expr, right: Expr) -> Expr {
    Expr::In(InfixExpr {
        operator: op.to_string(),
        left: Box::new(left),
        right: Box::new(right),
    })
}

fn prefix(op: &str, right: Expr) -> Expr {
    Expr::Pre(PrefixExpr { operator: op.to_string(), right: Box::new(right) })
}

fn if_expr(cond: Expr, cons: Vec<Stmt>, alt: Option<Vec<Stmt>>) -> Expr {
    Expr::If(IfExpr {
        condition: Box::new(cond),
        consequence: BlockStatement { stmts: cons },
        alternative: alt.map(|stmts| BlockStatement { stmts }),
    })
}

fn expr_stmt(e: Expr) -> Stmt {
    Stmt::Expression(ExpressionStatement { expr: e })
}

fn let_stmt(name: &str, e: Expr) -> Stmt {
    Stmt::Let(LetStatement { name: name.to_string(), value: e })
}

fn i_to_o(n: i128) -> MObject {
    MObject::Int(Integer { value: n })
}

fn b_to_o(b: bool) -> MObject {
    MObject::Bool(Boolean { value: b })
}

fn s_to_o(s: &str) -> MObject {
    MObject::Str(MString { value: s.to_string() })
}

fn run_program(stmts: Vec<Stmt>) -> Vm {
    let mut compiler = Compiler::new();
    compiler
        .compile(MNode::Prog(Program { stmts }))
        .expect("program should compile");
    let mut vm = Vm::new(compiler.bytecode());
    vm.run().expect("program should run");
    vm
}

fn run_vm_test(stmts: Vec<Stmt>, expected: MObject) {
    let vm = run_program(stmts);
    let got = vm.stack_top().expect("a value should have been popped");
    assert_eq!(&expected, got);
}

#[test]
fn test_integer_arithmetic() {
    run_vm_test(vec![expr_stmt(int_lit(1))], i_to_o(1));
    run_vm_test(vec![expr_stmt(int_lit(2))], i_to_o(2));
    run_vm_test(vec![expr_stmt(infix("+", int_lit(1), int_lit(2)))], i_to_o(3));
    run_vm_test(vec![expr_stmt(infix("-", int_lit(1), int_lit(2)))], i_to_o(-1));
    // -1 - -2
    run_vm_test(
        vec![expr_stmt(infix("-", prefix("-", int_lit(1)), prefix("-", int_lit(2))))],
        i_to_o(1),
    );
    run_vm_test(vec![expr_stmt(infix("*", int_lit(1), int_lit(2)))], i_to_o(2));
    run_vm_test(vec![expr_stmt(infix("/", int_lit(4), int_lit(2)))], i_to_o(2));
    // 50 / 2 * 2 + 10 - 5
    run_vm_test(
        vec![expr_stmt(infix(
            "-",
            infix("+", infix("*", infix("/", int_lit(50), int_lit(2)), int_lit(2)), int_lit(10)),
            int_lit(5),
        ))],
        i_to_o(55),
    );
    // 5 + 5 + 5 + 5 - 10
    run_vm_test(
        vec![expr_stmt(infix(
            "-",
            infix("+", infix("+", infix("+", int_lit(5), int_lit(5)), int_lit(5)), int_lit(5)),
            int_lit(10),
        ))],
        i_to_o(10),
    );
    // 2 * 2 * 2 * 2 * 2
    run_vm_test(
        vec![expr_stmt(infix(
            "*",
            infix("*", infix("*", infix("*", int_lit(2), int_lit(2)), int_lit(2)), int_lit(2)),
            int_lit(2),
        ))],
        i_to_o(32),
    );
    // 5 * 2 + 10
    run_vm_test(
        vec![expr_stmt(infix("+", infix("*", int_lit(5), int_lit(2)), int_lit(10)))],
        i_to_o(20),
    );
    // 5 + 2 * 10
    run_vm_test(
        vec![expr_stmt(infix("+", int_lit(5), infix("*", int_lit(2), int_lit(10))))],
        i_to_o(25),
    );
    // 5 * (2 + 10)
    run_vm_test(
        vec![expr_stmt(infix("*", int_lit(5), infix("+", int_lit(2), int_lit(10))))],
        i_to_o(60),
    );
}

#[test]
fn test_boolean_expressions() {
    run_vm_test(vec![expr_stmt(boolean(true))], b_to_o(true));
    run_vm_test(vec![expr_stmt(prefix("!", boolean(true)))], b_to_o(false));
    run_vm_test(
        vec![expr_stmt(prefix("!", prefix("!", boolean(true))))],
        b_to_o(true),
    );
    run_vm_test(vec![expr_stmt(prefix("!", int_lit(5)))], b_to_o(false));
    run_vm_test(vec![expr_stmt(prefix("!", prefix("!", int_lit(5))))], b_to_o(true));
    run_vm_test(vec![expr_stmt(boolean(false))], b_to_o(false));
    run_vm_test(vec![expr_stmt(infix("<", int_lit(1), int_lit(2)))], b_to_o(true));
    run_vm_test(vec![expr_stmt(infix(">", int_lit(1), int_lit(2)))], b_to_o(false));
    run_vm_test(vec![expr_stmt(infix("<", int_lit(1), int_lit(1)))], b_to_o(false));
    run_vm_test(vec![expr_stmt(infix(">", int_lit(1), int_lit(1)))], b_to_o(false));
    run_vm_test(vec![expr_stmt(infix("==", int_lit(1), int_lit(1)))], b_to_o(true));
    run_vm_test(vec![expr_stmt(infix("!=", int_lit(1), int_lit(1)))], b_to_o(false));
    run_vm_test(vec![expr_stmt(infix("==", int_lit(1), int_lit(2)))], b_to_o(false));
    run_vm_test(vec![expr_stmt(infix("!=", int_lit(1), int_lit(2)))], b_to_o(true));
    run_vm_test(
        vec![expr_stmt(infix("==", boolean(true), boolean(true)))],
        b_to_o(true),
    );
    run_vm_test(
        vec![expr_stmt(infix("==", boolean(false), boolean(false)))],
        b_to_o(true),
    );
    run_vm_test(
        vec![expr_stmt(infix("==", boolean(true), boolean(false)))],
        b_to_o(false),
    );
    run_vm_test(
        vec![expr_stmt(infix("!=", boolean(true), boolean(false)))],
        b_to_o(true),
    );
    run_vm_test(
        vec![expr_stmt(infix("!=", boolean(false), boolean(true)))],
        b_to_o(true),
    );
    run_vm_test(
        vec![expr_stmt(infix("==", infix("<", int_lit(1), int_lit(2)), boolean(true)))],
        b_to_o(true),
    );
    run_vm_test(
        vec![expr_stmt(infix("==", infix("<", int_lit(1), int_lit(2)), boolean(false)))],
        b_to_o(false),
    );
    run_vm_test(
        vec![expr_stmt(infix("==", infix(">", int_lit(1), int_lit(2)), boolean(true)))],
        b_to_o(false),
    );
    run_vm_test(
        vec![expr_stmt(infix("==", infix(">", int_lit(1), int_lit(2)), boolean(false)))],
        b_to_o(true),
    );
    // !(if (false) { 5; })
    run_vm_test(
        vec![expr_stmt(prefix(
            "!",
            if_expr(boolean(false), vec![expr_stmt(int_lit(5))], None),
        ))],
        b_to_o(true),
    );
}

#[test]
fn test_if_expressions() {
    run_vm_test(
        vec![expr_stmt(if_expr(boolean(true), vec![expr_stmt(int_lit(10))], None))],
        i_to_o(10),
    );
    run_vm_test(
        vec![expr_stmt(if_expr(
            boolean(true),
            vec![expr_stmt(int_lit(10))],
            Some(vec![expr_stmt(int_lit(20))]),
        ))],
        i_to_o(10),
    );
    run_vm_test(
        vec![expr_stmt(if_expr(
            boolean(false),
            vec![expr_stmt(int_lit(10))],
            Some(vec![expr_stmt(int_lit(20))]),
        ))],
        i_to_o(20),
    );
    run_vm_test(
        vec![expr_stmt(if_expr(int_lit(1), vec![expr_stmt(int_lit(10))], None))],
        i_to_o(10),
    );
    run_vm_test(
        vec![expr_stmt(if_expr(
            infix("<", int_lit(1), int_lit(2)),
            vec![expr_stmt(int_lit(10))],
            None,
        ))],
        i_to_o(10),
    );
    run_vm_test(
        vec![expr_stmt(if_expr(
            infix("<", int_lit(1), int_lit(2)),
            vec![expr_stmt(int_lit(10))],
            Some(vec![expr_stmt(int_lit(20))]),
        ))],
        i_to_o(10),
    );
    run_vm_test(
        vec![expr_stmt(if_expr(
            infix(">", int_lit(1), int_lit(2)),
            vec![expr_stmt(int_lit(10))],
            Some(vec![expr_stmt(int_lit(20))]),
        ))],
        i_to_o(20),
    );
    run_vm_test(
        vec![expr_stmt(if_expr(boolean(false), vec![expr_stmt(int_lit(10))], None))],
        MObject::Null,
    );
    run_vm_test(
        vec![expr_stmt(if_expr(
            infix(">", int_lit(1), int_lit(2)),
            vec![expr_stmt(int_lit(10))],
            None,
        ))],
        MObject::Null,
    );
    // if ((if (false) { 10 })) { 10 } else { 20 }
    run_vm_test(
        vec![expr_stmt(if_expr(
            if_expr(boolean(false), vec![expr_stmt(int_lit(10))], None),
            vec![expr_stmt(int_lit(10))],
            Some(vec![expr_stmt(int_lit(20))]),
        ))],
        i_to_o(20),
    );
}

#[test]
fn test_let_statements() {
    run_vm_test(
        vec![let_stmt("one", int_lit(1)), expr_stmt(ident("one"))],
        i_to_o(1),
    );
    run_vm_test(
        vec![
            let_stmt("one", int_lit(1)),
            let_stmt("two", int_lit(2)),
            expr_stmt(infix("+", ident("one"), ident("two"))),
        ],
        i_to_o(3),
    );
    run_vm_test(
        vec![
            let_stmt("one", int_lit(1)),
            let_stmt("two", infix("+", ident("one"), ident("one"))),
            expr_stmt(infix("+", ident("one"), ident("two"))),
        ],
        i_to_o(3),
    );
}

#[test]
fn test_string_expr() {
    run_vm_test(vec![expr_stmt(string("monkey"))], s_to_o("monkey"));
    run_vm_test(
        vec![expr_stmt(infix("+", string("mon"), string("key")))],
        s_to_o("monkey"),
    );
    run_vm_test(
        vec![expr_stmt(infix(
            "+",
            infix("+", string("mon"), string("key")),
            string("banana"),
        ))],
        s_to_o("monkeybanana"),
    );
    // concatenation keeps operand order: it is not commutative
    run_vm_test(
        vec![expr_stmt(infix("+", string("key"), string("mon")))],
        s_to_o("keymon"),
    );
}

#[test]
fn test_global_slots_after_run() {
    let vm = run_program(vec![
        let_stmt("one", int_lit(1)),
        let_stmt("two", infix("+", ident("one"), ident("one"))),
        expr_stmt(infix("+", ident("one"), ident("two"))),
    ]);
    assert_eq!(&i_to_o(3), vm.stack_top().unwrap());
    let globals = vm.globals();
    assert_eq!(globals.len(), 2);
    assert_eq!(globals[0], i_to_o(1));
    assert_eq!(globals[1], i_to_o(2));
}

#[test]
fn test_stack_overflow_is_reported() {
    // 2049 pushes with no pops: the 2049th must fail, not truncate.
    let mut instructions: Vec<u8> = Vec::new();
    for _ in 0..2049 {
        instructions.push(0); // CONSTANT
        instructions.push(0);
        instructions.push(0);
    }
    let bytecode = Bytecode { instructions, constants: vec![i_to_o(1)] };
    let mut vm = Vm::new(bytecode);
    assert_eq!(vm.run(), Err(VmError::StackOverflow));
}

#[test]
fn test_division_by_zero_is_reported() {
    let mut compiler = Compiler::new();
    compiler
        .compile(MNode::Prog(Program {
            stmts: vec![expr_stmt(infix("/", int_lit(1), int_lit(0)))],
        }))
        .unwrap();
    let mut vm = Vm::new(compiler.bytecode());
    assert_eq!(vm.run(), Err(VmError::DivisionByZero));
}

#[test]
fn test_type_mismatch_is_reported() {
    let mut compiler = Compiler::new();
    compiler
        .compile(MNode::Prog(Program {
            stmts: vec![expr_stmt(infix("+", int_lit(1), boolean(true)))],
        }))
        .unwrap();
    let mut vm = Vm::new(compiler.bytecode());
    assert_eq!(vm.run(), Err(VmError::TypeMismatch));
}

#[test]
fn test_minus_on_non_integer_is_reported() {
    let mut compiler = Compiler::new();
    compiler
        .compile(MNode::Prog(Program {
            stmts: vec![expr_stmt(prefix("-", boolean(true)))],
        }))
        .unwrap();
    let mut vm = Vm::new(compiler.bytecode());
    assert_eq!(vm.run(), Err(VmError::NotAnInteger));
}

#[test]
fn test_undefined_global_is_reported() {
    // GET_GLOBAL 5 with an empty slot table.
    let bytecode = Bytecode { instructions: vec![15, 0, 5], constants: vec![] };
    let mut vm = Vm::new(bytecode);
    assert_eq!(vm.run(), Err(VmError::UndefinedGlobal(5)));
}

#[test]
fn test_unimplemented_opcode_is_reported() {
    let bytecode = Bytecode { instructions: vec![99], constants: vec![] };
    let mut vm = Vm::new(bytecode);
    assert_eq!(vm.run(), Err(VmError::UnimplementedOpcode(99)));
}
