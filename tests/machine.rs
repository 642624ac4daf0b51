use std::rc::Rc;

use rlox_compiler::ast::{BinaryOp, Expr, LogicalOp, Name, Stmt, UnaryOp};
use rlox_compiler::{
    disassemble_chunk, Action, ArithOp, Chunk, Compiler, CompilerError, OpCode, Piece,
    RuntimeError, Value, VMError, VM,
};

struct Outcome {
    result: Result<(), VMError>,
    printed: Vec<String>,
    stack: usize,
}

fn run_chunk(chunk: Chunk) -> Outcome {
    let mut vm = VM::new(Rc::new(chunk));
    let mut printed = Vec::new();
    loop {
        let mut action = match vm.step() {
            Ok(a) => a,
            Err(e) => return Outcome { result: Err(e), printed, stack: vm.stack_len() },
        };
        loop {
            match action {
                Action::Continue => break,
                Action::Halt => return Outcome { result: Ok(()), printed, stack: vm.stack_len() },
                Action::Print(text) => {
                    printed.push(text);
                    break;
                },
                Action::Arithmetic(op, a, b) => {
                    let (x, y) = (f64::from_bits(a), f64::from_bits(b));
                    let r = match op {
                        ArithOp::Add => x + y,
                        ArithOp::Subtract => x - y,
                        ArithOp::Multiply => x * y,
                        ArithOp::Divide => x / y,
                    };
                    vm.resume_number(r.to_bits());
                    break;
                },
                Action::Format(bits) => {
                    action = vm.resume_text(format!("{}", f64::from_bits(bits)));
                },
            }
        }
    }
}

fn compile(statements: Vec<Stmt>) -> Result<Chunk, CompilerError> {
    let mut compiler = Compiler::new(Chunk::new());
    compiler.compile(statements)?;
    Ok(compiler.finish())
}

fn run(statements: Vec<Stmt>) -> Outcome {
    run_chunk(compile(statements).unwrap())
}

fn num(n: f64) -> Expr {
    Expr::Number(1, n.to_bits())
}

fn string(s: &str) -> Expr {
    Expr::String(1, String::from(s))
}

fn name(s: &str) -> Name {
    Name { lexeme: String::from(s), line: 1 }
}

fn var(s: &str) -> Expr {
    Expr::Var(name(s))
}

fn binary(l: Expr, op: BinaryOp, r: Expr) -> Expr {
    Expr::Binary(Box::new(l), op, 1, Box::new(r))
}

fn logical(l: Expr, op: LogicalOp, r: Expr) -> Expr {
    Expr::Logical(Box::new(l), op, 1, Box::new(r))
}

fn assign(s: &str, e: Expr) -> Expr {
    Expr::Assign(name(s), Box::new(e))
}

fn declare(s: &str, e: Option<Expr>) -> Stmt {
    Stmt::Var(name(s), e)
}

#[test]
fn expression_statement_leaves_nothing() {
    let out = run(vec![Stmt::Expression(binary(num(1.0), BinaryOp::Plus, num(2.0)))]);
    assert!(out.result.is_ok());
    assert_eq!(out.stack, 0);
    assert!(out.printed.is_empty());
}

#[test]
fn print_arithmetic_precedence() {
    let e = binary(num(1.0), BinaryOp::Plus, binary(num(2.0), BinaryOp::Star, num(3.0)));
    let out = run(vec![Stmt::Print(e)]);
    assert!(out.result.is_ok());
    assert_eq!(out.printed, vec!["7"]);
}

#[test]
fn block_shadows_global() {
    let out = run(vec![
        declare("a", Some(num(1.0))),
        Stmt::Block(vec![declare("a", Some(num(2.0))), Stmt::Print(var("a"))]),
        Stmt::Print(var("a")),
    ]);
    assert!(out.result.is_ok());
    assert_eq!(out.printed, vec!["2", "1"]);
    assert_eq!(out.stack, 0);
}

#[test]
fn if_else_on_nil() {
    let out = run(vec![
        declare("a", None),
        Stmt::If(
            binary(var("a"), BinaryOp::EqualEqual, Expr::Nil(1)),
            Box::new(Stmt::Print(string("yes"))),
            Some(Box::new(Stmt::Print(string("no")))),
        ),
    ]);
    assert!(out.result.is_ok());
    assert_eq!(out.printed, vec!["yes"]);
    assert_eq!(out.stack, 0);
}

#[test]
fn while_loop_counts() {
    let out = run(vec![
        declare("i", Some(num(0.0))),
        Stmt::While(
            binary(var("i"), BinaryOp::Less, num(3.0)),
            Box::new(Stmt::Block(vec![
                Stmt::Print(var("i")),
                Stmt::Expression(assign("i", binary(var("i"), BinaryOp::Plus, num(1.0)))),
            ])),
        ),
    ]);
    assert!(out.result.is_ok());
    assert_eq!(out.printed, vec!["0", "1", "2"]);
    assert_eq!(out.stack, 0);
}

#[test]
fn string_equality_is_structural() {
    let out = run(vec![Stmt::Print(binary(string("a"), BinaryOp::EqualEqual, string("a")))]);
    assert!(out.result.is_ok());
    assert_eq!(out.printed, vec!["true"]);
}

#[test]
fn block_leaves_stack_as_before() {
    let out = run(vec![Stmt::Block(vec![
        declare("x", Some(num(1.0))),
        declare("y", Some(num(2.0))),
        Stmt::Block(vec![declare("z", Some(num(3.0))), Stmt::Print(var("z"))]),
        Stmt::Print(binary(var("x"), BinaryOp::Plus, var("y"))),
    ])]);
    assert!(out.result.is_ok());
    assert_eq!(out.printed, vec!["3", "3"]);
    assert_eq!(out.stack, 0);
}

#[test]
fn block_emits_one_pop_per_local() {
    let chunk = compile(vec![Stmt::Block(vec![
        declare("x", Some(Expr::Nil(1))),
        declare("y", Some(Expr::Nil(1))),
    ])])
    .unwrap();
    assert_eq!(chunk.as_bytes(), &[3, 3, 4, 4][..]);
}

#[test]
fn redeclare_in_same_scope_fails() {
    let r = compile(vec![Stmt::Block(vec![
        declare("a", Some(num(1.0))),
        declare("a", Some(num(2.0))),
    ])]);
    match r {
        Err(CompilerError::VariableAlreadyDeclared(n)) => assert_eq!(n, "a"),
        _ => panic!("expected a redeclaration error"),
    }
}

#[test]
fn redeclare_in_nested_scope_shadows_only_inside() {
    let out = run(vec![Stmt::Block(vec![
        declare("a", Some(string("outer"))),
        Stmt::Block(vec![declare("a", Some(string("inner"))), Stmt::Print(var("a"))]),
        Stmt::Print(var("a")),
    ])]);
    assert!(out.result.is_ok());
    assert_eq!(out.printed, vec!["inner", "outer"]);
}

#[test]
fn too_many_constants() {
    let stmts: Vec<Stmt> = (0..256).map(|i| Stmt::Expression(num(i as f64))).collect();
    assert!(matches!(compile(stmts), Err(CompilerError::TooManyConstants)));
}

#[test]
fn too_many_locals() {
    let stmts: Vec<Stmt> = (0..256).map(|i| declare(&format!("v{}", i), Some(Expr::Nil(1)))).collect();
    assert!(matches!(compile(vec![Stmt::Block(stmts)]), Err(CompilerError::TooManyLocals)));
}

#[test]
fn too_deeply_nested() {
    let mut s = Stmt::Print(Expr::Nil(1));
    for _ in 0..256 {
        s = Stmt::Block(vec![s]);
    }
    assert!(matches!(compile(vec![s]), Err(CompilerError::TooDeeplyNested)));
}

#[test]
fn jump_too_large() {
    let body: Vec<Stmt> = (0..17000).map(|_| Stmt::Expression(Expr::Nil(1))).collect();
    let r = compile(vec![Stmt::If(Expr::Boolean(1, true), Box::new(Stmt::Block(body)), None)]);
    assert!(matches!(r, Err(CompilerError::JumpTooLarge)));
}

#[test]
fn logical_operators_short_circuit() {
    let out = run(vec![
        Stmt::Print(logical(Expr::Nil(1), LogicalOp::Or, string("right"))),
        Stmt::Print(logical(string("left"), LogicalOp::Or, string("right"))),
        Stmt::Print(logical(Expr::Boolean(1, false), LogicalOp::And, string("right"))),
        Stmt::Print(logical(string("left"), LogicalOp::And, string("right"))),
    ]);
    assert!(out.result.is_ok());
    assert_eq!(out.printed, vec!["right", "left", "false", "right"]);
    assert_eq!(out.stack, 0);
}

#[test]
fn comparisons_and_unary() {
    let out = run(vec![
        Stmt::Print(binary(num(2.0), BinaryOp::Greater, num(1.0))),
        Stmt::Print(binary(num(2.0), BinaryOp::GreaterEqual, num(2.0))),
        Stmt::Print(binary(num(2.0), BinaryOp::LessEqual, num(1.0))),
        Stmt::Print(binary(num(2.0), BinaryOp::BangEqual, num(1.0))),
        Stmt::Print(Expr::Unary(UnaryOp::Minus, 1, Box::new(num(4.5)))),
        Stmt::Print(Expr::Unary(UnaryOp::Bang, 1, Box::new(num(0.0)))),
        Stmt::Print(binary(num(1.0), BinaryOp::Slash, num(4.0))),
        Stmt::Print(binary(num(1.0), BinaryOp::Minus, num(4.0))),
        Stmt::Print(binary(num(0.0), BinaryOp::EqualEqual, num(-0.0))),
        Stmt::Print(binary(num(f64::NAN), BinaryOp::EqualEqual, num(f64::NAN))),
        Stmt::Print(binary(num(-0.0), BinaryOp::Less, num(0.0))),
        Stmt::Print(binary(num(-3.0), BinaryOp::Less, num(-2.0))),
        Stmt::Print(binary(num(f64::NAN), BinaryOp::Less, num(1.0))),
    ]);
    assert!(out.result.is_ok());
    assert_eq!(
        out.printed,
        vec!["true", "true", "false", "true", "-4.5", "false", "0.25", "-3", "true", "false", "false", "true", "false"]
    );
}

#[test]
fn number_comparison_matches_floats() {
    let samples = [0.0, -0.0, 1.0, -1.0, 2.5, -2.5, 1e300, -1e-300, f64::INFINITY, f64::NEG_INFINITY, f64::NAN];
    for &a in samples.iter() {
        for &b in samples.iter() {
            assert_eq!(rlox_compiler::value::number_less(a.to_bits(), b.to_bits()), a < b);
            assert_eq!(rlox_compiler::value::number_equal(a.to_bits(), b.to_bits()), a == b);
        }
        assert_eq!(rlox_compiler::value::number_negate(a.to_bits()), (-a).to_bits());
    }
}

#[test]
fn string_concatenation_stringifies() {
    let out = run(vec![
        Stmt::Print(binary(string("ab"), BinaryOp::Plus, string("cd"))),
        Stmt::Print(binary(string("ab"), BinaryOp::Plus, num(34.0))),
        Stmt::Print(binary(num(12.0), BinaryOp::Plus, string("cd"))),
        Stmt::Print(binary(string("x"), BinaryOp::Plus, Expr::Nil(1))),
        Stmt::Print(binary(Expr::Boolean(1, true), BinaryOp::Plus, string("!"))),
    ]);
    assert!(out.result.is_ok());
    assert_eq!(out.printed, vec!["abcd", "ab34", "12cd", "xnil", "true!"]);
}

#[test]
fn runtime_errors_carry_lines() {
    let e = Expr::Binary(Box::new(num(1.0)), BinaryOp::Minus, 4, Box::new(Expr::Boolean(4, true)));
    let out = run(vec![Stmt::Print(e)]);
    assert!(matches!(out.result, Err(VMError::Runtime(4, RuntimeError::ExpectedNumber))));

    let e = Expr::Binary(Box::new(Expr::Nil(2)), BinaryOp::Plus, 2, Box::new(Expr::Nil(2)));
    let out = run(vec![Stmt::Print(e)]);
    assert!(matches!(out.result, Err(VMError::Runtime(2, RuntimeError::InvalidAdditionArguments))));

    let out = run(vec![Stmt::Print(Expr::Unary(UnaryOp::Minus, 3, Box::new(string("s"))))]);
    assert!(matches!(out.result, Err(VMError::Runtime(3, RuntimeError::ExpectedNumber))));
}

#[test]
fn undefined_globals() {
    let out = run(vec![Stmt::Print(var("nope"))]);
    match out.result {
        Err(VMError::Runtime(1, RuntimeError::UndefinedGlobal(n))) => assert_eq!(n, "nope"),
        _ => panic!("expected an undefined global"),
    }
    let out = run(vec![Stmt::Expression(assign("nope", num(1.0)))]);
    match out.result {
        Err(VMError::Runtime(1, RuntimeError::UndefinedGlobal(n))) => assert_eq!(n, "nope"),
        _ => panic!("expected an undefined global"),
    }
}

#[test]
fn global_assignment_and_redefinition() {
    let out = run(vec![
        declare("g", Some(num(1.0))),
        Stmt::Expression(assign("g", num(5.0))),
        Stmt::Print(var("g")),
        declare("g", Some(string("again"))),
        Stmt::Print(var("g")),
    ]);
    assert!(out.result.is_ok());
    assert_eq!(out.printed, vec!["5", "again"]);
}

#[test]
fn hand_written_bytecode_errors() {
    let mut chunk = Chunk::new();
    chunk.add(OpCode::Pop, 1);
    assert!(matches!(run_chunk(chunk).result, Err(VMError::StackTooSmall(1, 0))));

    let mut chunk = Chunk::new();
    chunk.add(OpCode::Constant(9), 1);
    assert!(matches!(run_chunk(chunk).result, Err(VMError::InvalidConstant(9, _))));

    let mut chunk = Chunk::new();
    chunk.add(OpCode::Unknown(99), 1);
    assert!(matches!(run_chunk(chunk).result, Err(VMError::InvalidOpCode(99))));

    let mut chunk = Chunk::new();
    chunk.add(OpCode::GetLocal(2), 6);
    assert!(matches!(run_chunk(chunk).result, Err(VMError::Runtime(6, RuntimeError::UndefinedLocal(2)))));

    let mut chunk = Chunk::new();
    chunk.add_constant(Value::Nil).unwrap();
    chunk.add(OpCode::True, 1);
    chunk.add(OpCode::DefineGlobal(0), 1);
    assert!(matches!(run_chunk(chunk).result, Err(VMError::Runtime(1, RuntimeError::ExpectedIdentifier))));

    let mut chunk = Chunk::new();
    chunk.add(OpCode::Nil, 1);
    chunk.add(OpCode::Add, 1);
    assert!(matches!(run_chunk(chunk).result, Err(VMError::StackTooSmall(2, 1))));

    let mut chunk = Chunk::new();
    chunk.add(OpCode::Jump(-5), 1);
    assert!(matches!(run_chunk(chunk).result, Err(VMError::Decode(_))));
}

#[test]
fn return_halts() {
    let mut chunk = Chunk::new();
    chunk.add(OpCode::True, 1);
    chunk.add(OpCode::Return, 1);
    chunk.add(OpCode::Print, 1);
    let out = run_chunk(chunk);
    assert!(out.result.is_ok());
    assert!(out.printed.is_empty());
    assert_eq!(out.stack, 1);
}

#[test]
fn disassembly_listing() {
    let chunk = compile(vec![
        declare("a", Some(num(1.5))),
        Stmt::If(var("a"), Box::new(Stmt::Print(string("s"))), None),
    ])
    .unwrap();
    let mut pieces = Vec::new();
    disassemble_chunk(&mut pieces, &chunk);
    let mut text = String::new();
    for p in pieces {
        match p {
            Piece::Text(t) => text.push_str(&t),
            Piece::Number(bits) => text.push_str(&format!("{}", f64::from_bits(bits))),
        }
    }
    let expected = "0x0000    1 OP_CONSTANT      0 '1.5'\n\
                    0x0002    0 OP_DEFINE_GLOBAL 1 'a'\n\
                    0x0004    1 OP_GET_GLOBAL    2 'a'\n\
                    0x0006    0 OP_JUMP_IF_FALSE +0x0a -> 0x0010\n\
                    0x0009    | OP_POP\n\
                    0x000a    1 OP_CONSTANT      3 's'\n\
                    0x000c    0 OP_PRINT\n\
                    0x000d    | OP_JUMP +0x04 -> 0x0011\n\
                    0x0010    | OP_POP\n";
    assert_eq!(text, expected);
}

#[test]
fn disassembly_of_cut_short_and_backward_jump() {
    let mut chunk = Chunk::new();
    chunk.add(OpCode::Jump(-3), 2);
    chunk.add(OpCode::Jump(0), 2);
    let mut pieces = Vec::new();
    disassemble_chunk(&mut pieces, &chunk);
    let text: Vec<String> = pieces
        .into_iter()
        .map(|p| match p {
            Piece::Text(t) => t,
            Piece::Number(_) => String::from("?"),
        })
        .collect();
    assert_eq!(text[1], "OP_JUMP -0x03 -> 0x0000\n");
    assert_eq!(text[3], "OP_JUMP +0x00 -> 0x0003\n");
}

#[test]
fn jump_helpers() {
    assert_eq!(rlox_compiler::disasm::display_jump_offset(5), "+0x05");
    assert_eq!(rlox_compiler::disasm::display_jump_offset(-300), "-0x12c");
    assert_eq!(rlox_compiler::disasm::display_jump_offset(i16::MIN), "-0x8000");
    assert_eq!(rlox_compiler::disasm::calculate_jump_target(10, -4), 6);
    assert_eq!(rlox_compiler::disasm::calculate_jump_target(10, 4), 14);
    assert_eq!(rlox_compiler::disasm::calculate_jump_target(2, -4), 0);
}

#[test]
fn if_without_else_pops_condition_on_both_paths() {
    for cond in [false, true] {
        let out = run(vec![Stmt::If(Expr::Boolean(1, cond), Box::new(Stmt::Expression(Expr::Nil(1))), None)]);
        assert!(out.result.is_ok());
        assert_eq!(out.stack, 0);
    }
}

#[test]
fn if_without_else_keeps_local_slots() {
    let out = run(vec![Stmt::Block(vec![
        Stmt::If(Expr::Boolean(1, false), Box::new(Stmt::Expression(Expr::Nil(1))), None),
        declare("b", Some(Expr::Boolean(1, true))),
        Stmt::Print(var("b")),
    ])]);
    assert!(out.result.is_ok());
    assert_eq!(out.printed, vec!["true"]);
    assert_eq!(out.stack, 0);
}

#[test]
fn if_without_else_code_shape() {
    let chunk = compile(vec![Stmt::If(Expr::Boolean(1, false), Box::new(Stmt::Expression(Expr::Nil(1))), None)]).unwrap();
    assert_eq!(chunk.as_bytes(), &[2, 21, 0, 9, 4, 3, 4, 20, 0, 4, 4][..]);
}

#[test]
fn nested_control_flow_keeps_stack_balanced() {
    let out = run(vec![
        declare("i", Some(num(0.0))),
        Stmt::While(
            binary(var("i"), BinaryOp::Less, num(4.0)),
            Box::new(Stmt::Block(vec![
                declare("odd", Some(binary(var("i"), BinaryOp::EqualEqual, num(1.0)))),
                Stmt::If(
                    logical(var("odd"), LogicalOp::Or, binary(var("i"), BinaryOp::EqualEqual, num(3.0))),
                    Box::new(Stmt::Print(var("i"))),
                    None,
                ),
                Stmt::Expression(assign("i", binary(var("i"), BinaryOp::Plus, num(1.0)))),
            ])),
        ),
    ]);
    assert!(out.result.is_ok());
    assert_eq!(out.printed, vec!["1", "3"]);
    assert_eq!(out.stack, 0);
}

#[test]
fn cut_short_instruction_is_unexpected_eof() {
    let mut chunk = Chunk::new();
    chunk.add(OpCode::Unknown(0), 1);
    assert!(matches!(
        run_chunk(chunk).result,
        Err(VMError::Decode(rlox_compiler::DecodeError::UnexpectedEOF(..)))
    ));
    let mut chunk = Chunk::new();
    chunk.add(OpCode::Unknown(255), 1);
    assert!(matches!(run_chunk(chunk).result, Err(VMError::InvalidOpCode(255))));
}
