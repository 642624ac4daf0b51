use crate::ast::{BinaryOp, Expr, LogicalOp, Name, Stmt, UnaryOp};
use crate::chunk::{overwrite, Chunk, ChunkReference, MAX_CONSTANTS};
use crate::op::OpCode;
use crate::value::{Datum, Value};
use vstd::prelude::*;

verus! {

/// Most locals that can be live at once: a slot index is one byte.
pub const MAX_LOCALS: usize = 255;

/// Deepest block nesting: the depth is one byte.
pub const MAX_DEPTH: u8 = 255;

/// Longest forward jump: the displacement is a signed 16-bit number.
pub const MAX_JUMP: usize = 32767;

/// A variable declared inside a block. Its position in the compiler's list is
/// its slot on the evaluation stack.
pub struct Local {
    pub name: String,
    pub scope_depth: u8,
}

#[derive(Debug)]
pub enum CompilerError {
    TooManyConstants,
    TooManyLocals,
    VariableAlreadyDeclared(String),
    /// Blocks nest deeper than 255.
    TooDeeplyNested,
    /// A jump spans more bytes than its 16-bit displacement can hold.
    JumpTooLarge,
}

pub enum CompileFault {
    TooManyConstants,
    TooManyLocals,
    VariableAlreadyDeclared(Seq<char>),
    TooDeeplyNested,
    JumpTooLarge,
}

impl CompilerError {
    pub open spec fn fault(&self) -> CompileFault {
        match self {
            CompilerError::TooManyConstants => CompileFault::TooManyConstants,
            CompilerError::TooManyLocals => CompileFault::TooManyLocals,
            CompilerError::VariableAlreadyDeclared(s) => CompileFault::VariableAlreadyDeclared(s@),
            CompilerError::TooDeeplyNested => CompileFault::TooDeeplyNested,
            CompilerError::JumpTooLarge => CompileFault::JumpTooLarge,
        }
    }
}

/// Which jump a placeholder becomes once its target is known.
#[derive(Clone, Copy, Debug, PartialEq, Eq, Structural)]
pub enum JumpKind {
    Jump,
    JumpIfFalse,
}

/// What the compiler has produced so far: the chunk's code, line map and
/// pool, and its own list of locals (name, depth) and current depth.
pub struct Emitted {
    pub code: Seq<u8>,
    pub lines: Seq<(usize, usize)>,
    pub constants: Seq<Datum>,
    pub locals: Seq<(Seq<char>, u8)>,
    pub depth: u8,
}

pub open spec fn emit(s: Emitted, op: OpCode, line: usize) -> Emitted {
    Emitted {
        code: s.code + op.spec_encode(),
        lines: s.lines.push((s.code.len() as usize, line)),
        ..s
    }
}

/// Adds `d` to the pool and hands back its index.
pub open spec fn intern(s: Emitted, d: Datum) -> Result<(Emitted, u8), CompileFault> {
    if s.constants.len() >= MAX_CONSTANTS {
        Err(CompileFault::TooManyConstants)
    } else {
        Ok((Emitted { constants: s.constants.push(d), ..s }, s.constants.len() as u8))
    }
}

pub open spec fn jump_op(kind: JumpKind, offset: i16) -> OpCode {
    match kind {
        JumpKind::Jump => OpCode::Jump(offset),
        JumpKind::JumpIfFalse => OpCode::JumpIfFalse(offset),
    }
}

/// Emits a placeholder jump; its offset is that of the placeholder.
pub open spec fn placeholder(s: Emitted) -> Emitted {
    emit(s, OpCode::Jump(0), 0)
}

/// Rewrites the placeholder at `at` into a jump of kind `kind` that lands at
/// the current end of the code.
pub open spec fn resolve(s: Emitted, at: int, kind: JumpKind) -> Result<Emitted, CompileFault> {
    let distance = s.code.len() - at;
    if distance > MAX_JUMP {
        Err(CompileFault::JumpTooLarge)
    } else {
        Ok(Emitted { code: overwrite(s.code, at, jump_op(kind, distance as i16).spec_encode()), ..s })
    }
}

/// Emits a backward jump to `start`.
pub open spec fn jump_back(s: Emitted, start: int) -> Result<Emitted, CompileFault> {
    let distance = s.code.len() - start;
    if distance > MAX_JUMP + 1 {
        Err(CompileFault::JumpTooLarge)
    } else {
        Ok(emit(s, OpCode::Jump((0 - distance) as i16), 0))
    }
}

/// The slot of the innermost local called `name`: the last one in the list.
pub open spec fn resolve_local(locals: Seq<(Seq<char>, u8)>, name: Seq<char>) -> Option<int>
    decreases locals.len(),
{
    if locals.len() == 0 {
        None
    } else if locals.last().0 == name {
        Some(locals.len() - 1)
    } else {
        resolve_local(locals.drop_last(), name)
    }
}

/// Variable lookup finds the innermost binding: the slot it gives holds
/// `name` and no later slot does; it finds nothing only when no slot holds
/// `name`.
pub proof fn lemma_resolve_innermost(locals: Seq<(Seq<char>, u8)>, name: Seq<char>)
    ensures
        match resolve_local(locals, name) {
            Some(i) => 0 <= i < locals.len() && locals[i].0 == name && forall|j: int|
                i < j < locals.len() ==> #[trigger] locals[j].0 != name,
            None => forall|j: int| 0 <= j < locals.len() ==> #[trigger] locals[j].0 != name,
        },
    decreases locals.len(),
{
    if locals.len() > 0 && locals.last().0 != name {
        let rest = locals.drop_last();
        lemma_resolve_innermost(rest, name);
        assert forall|j: int| 0 <= j < rest.len() implies #[trigger] locals[j] == rest[j] by {}
    }
}

/// A local called `name` was declared at depth `depth`.
pub open spec fn declared_at(locals: Seq<(Seq<char>, u8)>, name: Seq<char>, depth: u8) -> bool {
    exists|i: int| 0 <= i < locals.len() && #[trigger] locals[i] == (name, depth)
}

/// Pops, one `Pop` each, the trailing locals deeper than the current depth.
pub open spec fn close_locals(s: Emitted) -> Emitted
    decreases s.locals.len(),
{
    if s.locals.len() > 0 && s.locals.last().1 > s.depth {
        close_locals(emit(Emitted { locals: s.locals.drop_last(), ..s }, OpCode::Pop, 0))
    } else {
        s
    }
}

pub open spec fn begin_scope(s: Emitted) -> Result<Emitted, CompileFault> {
    if s.depth == MAX_DEPTH {
        Err(CompileFault::TooDeeplyNested)
    } else {
        Ok(Emitted { depth: (s.depth + 1) as u8, ..s })
    }
}

/// Leaves a block: one level up, and its locals popped.
pub open spec fn end_scope(s: Emitted) -> Emitted {
    close_locals(Emitted { depth: (s.depth - 1) as u8, ..s })
}

pub open spec fn local_op(set: bool, i: u8) -> OpCode {
    if set {
        OpCode::SetLocal(i)
    } else {
        OpCode::GetLocal(i)
    }
}

pub open spec fn global_op(set: bool, c: u8) -> OpCode {
    if set {
        OpCode::SetGlobal(c)
    } else {
        OpCode::GetGlobal(c)
    }
}

/// Reads (or, with `set`, assigns) a variable: through its slot if it is
/// local, through its name in the pool if not.
pub open spec fn variable(s: Emitted, name: Name, set: bool) -> Result<Emitted, CompileFault> {
    match resolve_local(s.locals, name.lexeme@) {
        Some(i) => Ok(emit(s, local_op(set, i as u8), name.line)),
        None => match intern(s, Datum::Text(name.lexeme@)) {
            Err(f) => Err(f),
            Ok((s2, c)) => Ok(emit(s2, global_op(set, c), name.line)),
        },
    }
}

pub open spec fn binary_ops(s: Emitted, op: BinaryOp, line: usize) -> Emitted {
    match op {
        BinaryOp::BangEqual => emit(emit(s, OpCode::Equal, line), OpCode::Not, line),
        BinaryOp::EqualEqual => emit(s, OpCode::Equal, line),
        BinaryOp::Greater => emit(s, OpCode::Greater, line),
        BinaryOp::GreaterEqual => emit(emit(s, OpCode::Less, line), OpCode::Not, line),
        BinaryOp::Less => emit(s, OpCode::Less, line),
        BinaryOp::LessEqual => emit(emit(s, OpCode::Greater, line), OpCode::Not, line),
        BinaryOp::Plus => emit(s, OpCode::Add, line),
        BinaryOp::Minus => emit(s, OpCode::Subtract, line),
        BinaryOp::Star => emit(s, OpCode::Multiply, line),
        BinaryOp::Slash => emit(s, OpCode::Divide, line),
    }
}

/// The code for an expression: operands first, then the operator.
pub open spec fn compile_expr(e: Expr, s: Emitted) -> Result<Emitted, CompileFault>
    decreases e,
{
    match e {
        Expr::Assign(name, value) => match compile_expr(*value, s) {
            Err(f) => Err(f),
            Ok(s1) => variable(s1, name, true),
        },
        Expr::Binary(l, op, line, r) => match compile_expr(*l, s) {
            Err(f) => Err(f),
            Ok(s1) => match compile_expr(*r, s1) {
                Err(f) => Err(f),
                Ok(s2) => Ok(binary_ops(s2, op, line)),
            },
        },
        Expr::Logical(l, op, line, r) => match compile_expr(*l, s) {
            Err(f) => Err(f),
            Ok(s1) => {
                let first = s1.code.len() as int;
                match op {
                    LogicalOp::Or => {
                        let s2 = placeholder(placeholder(s1));
                        match resolve(s2, first, JumpKind::JumpIfFalse) {
                            Err(f) => Err(f),
                            Ok(s3) => match compile_expr(*r, emit(s3, OpCode::Pop, line)) {
                                Err(f) => Err(f),
                                Ok(s4) => resolve(s4, first + 3, JumpKind::Jump),
                            },
                        }
                    },
                    LogicalOp::And => match compile_expr(
                        *r,
                        emit(placeholder(s1), OpCode::Pop, line),
                    ) {
                        Err(f) => Err(f),
                        Ok(s2) => resolve(s2, first, JumpKind::JumpIfFalse),
                    },
                }
            },
        },
        Expr::Unary(op, line, value) => match compile_expr(*value, s) {
            Err(f) => Err(f),
            Ok(s1) => Ok(
                emit(
                    s1,
                    match op {
                        UnaryOp::Bang => OpCode::Not,
                        UnaryOp::Minus => OpCode::Negate,
                    },
                    line,
                ),
            ),
        },
        Expr::Grouping(inner) => compile_expr(*inner, s),
        Expr::Var(name) => variable(s, name, false),
        Expr::String(line, text) => match intern(s, Datum::Text(text@)) {
            Err(f) => Err(f),
            Ok((s1, c)) => Ok(emit(s1, OpCode::Constant(c), line)),
        },
        Expr::Number(line, bits) => match intern(s, Datum::Number(bits)) {
            Err(f) => Err(f),
            Ok((s1, c)) => Ok(emit(s1, OpCode::Constant(c), line)),
        },
        Expr::Boolean(line, b) => Ok(emit(s, if b { OpCode::True } else { OpCode::False }, line)),
        Expr::Nil(line) => Ok(emit(s, OpCode::Nil, line)),
    }
}

/// Declares `name`, whose value is on top of the stack: a global at depth 0,
/// a local slot inside a block.
pub open spec fn declare(s: Emitted, name: Name) -> Result<Emitted, CompileFault> {
    if s.depth > 0 {
        if s.locals.len() == MAX_LOCALS {
            Err(CompileFault::TooManyLocals)
        } else if declared_at(s.locals, name.lexeme@, s.depth) {
            Err(CompileFault::VariableAlreadyDeclared(name.lexeme@))
        } else {
            Ok(Emitted { locals: s.locals.push((name.lexeme@, s.depth)), ..s })
        }
    } else {
        match intern(s, Datum::Text(name.lexeme@)) {
            Err(f) => Err(f),
            Ok((s1, c)) => Ok(emit(s1, OpCode::DefineGlobal(c), 0)),
        }
    }
}

/// The code for a statement.
pub open spec fn compile_stmt(st: Stmt, s: Emitted) -> Result<Emitted, CompileFault>
    decreases st, 1int,
{
    match st {
        Stmt::Block(stmts) => match begin_scope(s) {
            Err(f) => Err(f),
            Ok(s1) => match compile_stmts(stmts@, 0, s1) {
                Err(f) => Err(f),
                Ok(s2) => Ok(end_scope(s2)),
            },
        },
        Stmt::Expression(e) => match compile_expr(e, s) {
            Err(f) => Err(f),
            Ok(s1) => Ok(emit(s1, OpCode::Pop, 0)),
        },
        Stmt::If(cond, then_branch, else_branch) => match compile_expr(cond, s) {
            Err(f) => Err(f),
            Ok(s1) => {
                let false_jump = s1.code.len() as int;
                match compile_stmt(*then_branch, emit(placeholder(s1), OpCode::Pop, 0)) {
                    Err(f) => Err(f),
                    Ok(s2) => {
                        let true_jump = s2.code.len() as int;
                        match resolve(placeholder(s2), false_jump, JumpKind::JumpIfFalse) {
                            Err(f) => Err(f),
                            Ok(s3) => {
                                let s4 = emit(s3, OpCode::Pop, 0);
                                match else_branch {
                                    Some(other) => match compile_stmt(*other, s4) {
                                        Err(f) => Err(f),
                                        Ok(s5) => resolve(s5, true_jump, JumpKind::Jump),
                                    },
                                    None => resolve(s4, true_jump, JumpKind::Jump),
                                }
                            },
                        }
                    },
                }
            },
        },
        Stmt::Print(e) => match compile_expr(e, s) {
            Err(f) => Err(f),
            Ok(s1) => Ok(emit(s1, OpCode::Print, 0)),
        },
        Stmt::Var(name, init) => {
            let s1 = match init {
                Some(e) => compile_expr(e, s),
                None => Ok(emit(s, OpCode::Nil, name.line)),
            };
            match s1 {
                Err(f) => Err(f),
                Ok(s1) => declare(s1, name),
            }
        },
        Stmt::While(cond, body) => {
            let start = s.code.len() as int;
            match compile_expr(cond, s) {
                Err(f) => Err(f),
                Ok(s1) => {
                    let exit_jump = s1.code.len() as int;
                    match compile_stmt(*body, emit(placeholder(s1), OpCode::Pop, 0)) {
                        Err(f) => Err(f),
                        Ok(s2) => match jump_back(s2, start) {
                            Err(f) => Err(f),
                            Ok(s3) => match resolve(s3, exit_jump, JumpKind::JumpIfFalse) {
                                Err(f) => Err(f),
                                Ok(s4) => Ok(emit(s4, OpCode::Pop, 0)),
                            },
                        },
                    }
                },
            }
        },
    }
}

/// The code for the statements from index `i` on, in order.
pub open spec fn compile_stmts(stmts: Seq<Stmt>, i: int, s: Emitted) -> Result<Emitted, CompileFault>
    decreases stmts, 0int, stmts.len() - i,
{
    if 0 <= i < stmts.len() {
        match compile_stmt(stmts[i], s) {
            Err(f) => Err(f),
            Ok(s1) => compile_stmts(stmts, i + 1, s1),
        }
    } else {
        Ok(s)
    }
}

/// Every local is declared at most at the current depth, and the list runs
/// from outer to inner declarations.
pub open spec fn scoped(s: Emitted) -> bool {
    &&& forall|i: int| 0 <= i < s.locals.len() ==> #[trigger] s.locals[i].1 <= s.depth
    &&& outer_first(s.locals)
}

/// Depths never fall along the list.
pub open spec fn outer_first(locals: Seq<(Seq<char>, u8)>) -> bool {
    forall|i: int, j: int| 0 <= i < j < locals.len() ==> #[trigger] locals[i].1 <= #[trigger] locals[j].1
}

/// `n` bytes of `Pop`.
pub open spec fn pops(n: nat) -> Seq<u8> {
    Seq::new(n, |i: int| OpCode::Pop.spec_encode()[0])
}

proof fn lemma_expr_frame(e: Expr, s: Emitted)
    ensures
        compile_expr(e, s) matches Ok(s2) ==> s2.locals == s.locals && s2.depth == s.depth,
    decreases e,
{
    match e {
        Expr::Assign(_, v) => lemma_expr_frame(*v, s),
        Expr::Binary(l, _, _, r) => {
            lemma_expr_frame(*l, s);
            if let Ok(s1) = compile_expr(*l, s) {
                lemma_expr_frame(*r, s1);
            }
        },
        Expr::Logical(l, op, line, r) => {
            lemma_expr_frame(*l, s);
            if let Ok(s1) = compile_expr(*l, s) {
                let first = s1.code.len() as int;
                match op {
                    LogicalOp::Or => {
                        if let Ok(s3) = resolve(placeholder(placeholder(s1)), first, JumpKind::JumpIfFalse) {
                            lemma_expr_frame(*r, emit(s3, OpCode::Pop, line));
                        }
                    },
                    LogicalOp::And => lemma_expr_frame(*r, emit(placeholder(s1), OpCode::Pop, line)),
                }
            }
        },
        Expr::Unary(_, _, v) => lemma_expr_frame(*v, s),
        Expr::Grouping(inner) => lemma_expr_frame(*inner, s),
        _ => {},
    }
}

proof fn lemma_close_locals(s: Emitted)
    requires
        outer_first(s.locals),
    ensures
        close_locals(s).depth == s.depth,
        close_locals(s).locals.len() <= s.locals.len(),
        close_locals(s).locals == s.locals.subrange(0, close_locals(s).locals.len() as int),
        close_locals(s).code == s.code + pops((s.locals.len() - close_locals(s).locals.len()) as nat),
        forall|i: int| 0 <= i < close_locals(s).locals.len() ==> #[trigger] close_locals(s).locals[i].1 <= s.depth,
        forall|i: int| close_locals(s).locals.len() <= i < s.locals.len() ==> #[trigger] s.locals[i].1 > s.depth,
    decreases s.locals.len(),
{
    if s.locals.len() > 0 && s.locals.last().1 > s.depth {
        let t = emit(Emitted { locals: s.locals.drop_last(), ..s }, OpCode::Pop, 0);
        lemma_close_locals(t);
        let c = close_locals(t);
        assert(c == close_locals(s));
        assert(c.locals =~= s.locals.subrange(0, c.locals.len() as int));
        let k = (t.locals.len() - c.locals.len()) as nat;
        assert(pops(1) + pops(k) =~= pops(k + 1));
        assert(c.code =~= s.code + pops(k + 1));
        assert forall|i: int| c.locals.len() <= i < s.locals.len() implies #[trigger] s.locals[i].1 > s.depth by {
            if i < s.locals.len() - 1 {
                assert(t.locals[i] == s.locals[i]);
            }
        }
    } else {
        assert(s.locals.subrange(0, s.locals.len() as int) =~= s.locals);
        assert(s.code + pops(0) =~= s.code);
        if s.locals.len() > 0 {
            assert forall|i: int| 0 <= i < s.locals.len() implies #[trigger] s.locals[i].1 <= s.depth by {
                if i < s.locals.len() - 1 {
                    assert(s.locals[i].1 <= s.locals[s.locals.len() - 1].1);
                }
            }
        }
    }
}

/// What compiling a statement may do to the locals: it keeps the ones before
/// it and adds only ones declared at the current depth.
pub open spec fn frame_kept(s: Emitted, s2: Emitted) -> bool {
    &&& s2.depth == s.depth
    &&& scoped(s2)
    &&& s.locals.len() <= s2.locals.len()
    &&& s2.locals.subrange(0, s.locals.len() as int) == s.locals
    &&& forall|i: int| s.locals.len() <= i < s2.locals.len() ==> #[trigger] s2.locals[i].1 == s.depth
}

proof fn lemma_frame_trans(a: Emitted, b: Emitted, c: Emitted)
    requires
        frame_kept(a, b),
        frame_kept(b, c),
    ensures
        frame_kept(a, c),
{
    assert(c.locals.subrange(0, a.locals.len() as int) =~= c.locals.subrange(0, b.locals.len() as int).subrange(0, a.locals.len() as int));
    assert forall|i: int| a.locals.len() <= i < c.locals.len() implies #[trigger] c.locals[i].1 == a.depth by {
        if i < b.locals.len() {
            assert(c.locals.subrange(0, b.locals.len() as int)[i] == c.locals[i]);
        }
    }
}

proof fn lemma_frame_refl(s: Emitted)
    requires
        scoped(s),
    ensures
        frame_kept(s, s),
{
    assert(s.locals.subrange(0, s.locals.len() as int) =~= s.locals);
}

proof fn lemma_stmt_frame(st: Stmt, s: Emitted)
    requires
        scoped(s),
    ensures
        compile_stmt(st, s) matches Ok(s2) ==> frame_kept(s, s2),
        (st is Block && compile_stmt(st, s) is Ok) ==> compile_stmt(st, s)->Ok_0.locals == s.locals,
    decreases st, 1int,
{
    lemma_frame_refl(s);
    match st {
        Stmt::Block(stmts) => {
            if let Ok(inner) = begin_scope(s) {
                assert(scoped(inner));
                lemma_stmts_frame(stmts@, 0, inner);
                if let Ok(s2) = compile_stmts(stmts@, 0, inner) {
                    let t = Emitted { depth: (s2.depth - 1) as u8, ..s2 };
                    lemma_close_locals(t);
                    let c = close_locals(t);
                    assert forall|i: int| s.locals.len() <= i < s2.locals.len() implies #[trigger] s2.locals[i].1 > t.depth by {}
                    assert forall|i: int| 0 <= i < s.locals.len() implies #[trigger] s2.locals[i] == s.locals[i] by {
                        assert(s2.locals.subrange(0, s.locals.len() as int)[i] == s2.locals[i]);
                    }
                    assert(s2.depth == inner.depth);
                    assert(t.locals == s2.locals);
                    if c.locals.len() > s.locals.len() {
                        let k = s.locals.len() as int;
                        assert(c.locals[k] == s2.locals[k]);
                        assert(c.locals[k].1 <= t.depth);
                        assert(s2.locals[k].1 == inner.depth);
                    }
                    if c.locals.len() < s.locals.len() {
                        let k = c.locals.len() as int;
                        assert(s2.locals[k] == s.locals[k]);
                        assert(t.locals[k].1 > t.depth);
                        assert(s.locals[k].1 <= s.depth);
                    }
                    assert(c.locals.len() == s.locals.len());
                    assert(c.locals =~= s.locals);
                }
            }
        },
        Stmt::Expression(e) => lemma_expr_frame(e, s),
        Stmt::Print(e) => lemma_expr_frame(e, s),
        Stmt::Var(name, init) => {
            if let Some(e) = init {
                lemma_expr_frame(e, s);
            }
            let s1 = match init {
                Some(e) => compile_expr(e, s),
                None => Ok(emit(s, OpCode::Nil, name.line)),
            };
            if let Ok(s1) = s1 {
                if let Ok(s2) = declare(s1, name) {
                    if s.depth > 0 {
                        assert(s2.locals.subrange(0, s.locals.len() as int) =~= s.locals);
                    } else {
                        assert(s2.locals.subrange(0, s.locals.len() as int) =~= s.locals);
                    }
                }
            }
        },
        Stmt::If(cond, then_branch, else_branch) => {
            lemma_expr_frame(cond, s);
            if let Ok(s1) = compile_expr(cond, s) {
                let a = emit(placeholder(s1), OpCode::Pop, 0);
                lemma_stmt_frame(*then_branch, a);
                if let Ok(s2) = compile_stmt(*then_branch, a) {
                    if let Ok(s3) = resolve(placeholder(s2), s1.code.len() as int, JumpKind::JumpIfFalse) {
                        let b = emit(s3, OpCode::Pop, 0);
                        if let Some(other) = else_branch {
                            lemma_stmt_frame(*other, b);
                            if let Ok(s4) = compile_stmt(*other, b) {
                                lemma_frame_trans(s, s2, s4);
                            }
                        }
                    }
                }
            }
        },
        Stmt::While(cond, body) => {
            lemma_expr_frame(cond, s);
            if let Ok(s1) = compile_expr(cond, s) {
                let a = emit(placeholder(s1), OpCode::Pop, 0);
                lemma_stmt_frame(*body, a);
            }
        },
    }
}

proof fn lemma_stmts_frame(stmts: Seq<Stmt>, i: int, s: Emitted)
    requires
        scoped(s),
    ensures
        compile_stmts(stmts, i, s) matches Ok(s2) ==> frame_kept(s, s2),
    decreases stmts, 0int, stmts.len() - i,
{
    lemma_frame_refl(s);
    if 0 <= i < stmts.len() {
        lemma_stmt_frame(stmts[i], s);
        if let Ok(s1) = compile_stmt(stmts[i], s) {
            lemma_stmts_frame(stmts, i + 1, s1);
            if let Ok(s2) = compile_stmts(stmts, i + 1, s1) {
                lemma_frame_trans(s, s1, s2);
            }
        }
    }
}

/// Compiling a block leaves the compiler's list of locals and its scope
/// depth as they were before the block, and closing a scope emits one `Pop`
/// for each local it takes off the list.
pub proof fn lemma_block_restores_locals(stmts: Vec<Stmt>, s: Emitted)
    requires
        scoped(s),
    ensures
        compile_stmt(Stmt::Block(stmts), s) matches Ok(s2) ==> s2.locals == s.locals && s2.depth
            == s.depth,
        s.depth > 0 ==> end_scope(s).code == s.code + pops(
            (s.locals.len() - end_scope(s).locals.len()) as nat,
        ),
{
    lemma_stmt_frame(Stmt::Block(stmts), s);
    if s.depth > 0 {
        lemma_close_locals(Emitted { depth: (s.depth - 1) as u8, ..s });
    }
}

/// Shadowing: a name declared as a local at the current depth cannot be
/// declared there again; declared in a nested block instead, it is accepted,
/// references resolve to the new slot inside that block, and once the block
/// is closed they resolve as they did before it.
pub proof fn lemma_shadowing(s: Emitted, name: Name)
    requires
        scoped(s),
        0 < s.depth < MAX_DEPTH,
        s.locals.len() < MAX_LOCALS,
        declared_at(s.locals, name.lexeme@, s.depth),
    ensures
        declare(s, name) == Err::<Emitted, CompileFault>(
            CompileFault::VariableAlreadyDeclared(name.lexeme@),
        ),
        begin_scope(s) matches Ok(inner) && declare(inner, name) matches Ok(s2) && resolve_local(
            s2.locals,
            name.lexeme@,
        ) == Some(s.locals.len() as int) && end_scope(s2).locals == s.locals,
{
    let inner = begin_scope(s)->Ok_0;
    assert forall|i: int| 0 <= i < inner.locals.len() implies #[trigger] inner.locals[i] != (
        name.lexeme@,
        inner.depth,
    ) by {
        assert(s.locals[i].1 <= s.depth);
    }
    assert(!declared_at(inner.locals, name.lexeme@, inner.depth));
    let s2 = declare(inner, name)->Ok_0;
    assert(s2.locals.drop_last() =~= s.locals);
    let t = Emitted { depth: (s2.depth - 1) as u8, ..s2 };
    assert(close_locals(t) == close_locals(emit(Emitted { locals: s.locals, ..t }, OpCode::Pop, 0)));
    let u = emit(Emitted { locals: s.locals, ..t }, OpCode::Pop, 0);
    if u.locals.len() > 0 {
        assert(u.locals.last().1 <= s.depth);
    }
}

/// Turns statements into code in a chunk that it holds until `finish`
/// hands it back.
pub struct Compiler {
    chunk: Chunk,
    locals: Vec<Local>,
    scope_depth: u8,
}

/// A placeholder jump waiting for its target.
struct JumpPatchReference {
    chunk_ref: ChunkReference,
    offset: usize,
    kind: JumpKind,
}

impl JumpPatchReference {
    spec fn fits(&self, len: nat) -> bool {
        &&& self.offset + 3 <= len
        &&& self.chunk_ref.spec_offset() == self.offset
        &&& self.chunk_ref.spec_length() == 3
    }
}

impl Compiler {
    pub closed spec fn state(&self) -> Emitted {
        Emitted {
            code: self.chunk.spec_code(),
            lines: self.chunk.spec_lines(),
            constants: self.chunk.spec_constants(),
            locals: self.locals@.map_values(|l: Local| (l.name@, l.scope_depth)),
            depth: self.scope_depth,
        }
    }

    pub closed spec fn wf(&self) -> bool {
        &&& self.chunk.wf()
        &&& self.locals@.len() <= MAX_LOCALS
        &&& scoped(self.state())
    }

    /// Every state of a well-formed compiler meets the conditions of the
    /// scope laws.
    pub proof fn lemma_wf_scoped(&self)
        requires
            self.wf(),
        ensures
            scoped(self.state()),
    {
    }

    /// A compiler at depth 0 with no locals, appending to `chunk`.
    pub fn new(chunk: Chunk) -> (r: Compiler)
        requires
            chunk.wf(),
        ensures
            r.wf(),
            r.state() == (Emitted {
                code: chunk.spec_code(),
                lines: chunk.spec_lines(),
                constants: chunk.spec_constants(),
                locals: Seq::empty(),
                depth: 0,
            }),
    {
        let r = Compiler { chunk, locals: Vec::new(), scope_depth: 0 };
        assert(r.state().locals =~= Seq::empty());
        r
    }

    /// Hands back the chunk with all the code compiled into it.
    pub fn finish(self) -> (r: Chunk)
        requires
            self.wf(),
        ensures
            r.wf(),
            r.spec_code() == self.state().code,
            r.spec_lines() == self.state().lines,
            r.spec_constants() == self.state().constants,
    {
        self.chunk
    }

    /// Compiles the statements in order, appending their code to the chunk.
    /// On an error the chunk holds part of the code and is to be dropped.
    pub fn compile(&mut self, statements: Vec<Stmt>) -> (r: Result<(), CompilerError>)
        requires
            old(self).wf(),
        ensures
            final(self).wf(),
            match r {
                Ok(()) => compile_stmts(statements@, 0, old(self).state()) == Ok::<
                    Emitted,
                    CompileFault,
                >(final(self).state()),
                Err(e) => compile_stmts(statements@, 0, old(self).state()) == Err::<
                    Emitted,
                    CompileFault,
                >(e.fault()),
            },
    {
        let mut i: usize = 0;
        while i < statements.len()
            invariant
                self.wf(),
                i <= statements@.len(),
                compile_stmts(statements@, 0, old(self).state()) == compile_stmts(
                    statements@,
                    i as int,
                    self.state(),
                ),
            decreases statements@.len() - i,
        {
            if let Err(e) = self.compile_stmt(&statements[i]) {
                return Err(e);
            }
            i = i + 1;
        }
        Ok(())
    }

    #[verifier::rlimit(50)]
    fn compile_expr(&mut self, expr: &Expr) -> (r: Result<(), CompilerError>)
        requires
            old(self).wf(),
        ensures
            final(self).wf(),
            match compile_expr(*expr, old(self).state()) {
                Ok(s) => r is Ok && final(self).state() == s,
                Err(f) => r matches Err(e) && e.fault() == f,
            },
            r is Ok ==> final(self).state().code.len() >= old(self).state().code.len(),
            r is Ok ==> final(self).state().depth == old(self).state().depth,
        decreases expr,
    {
        match expr {
            Expr::Assign(name, value) => {
                if let Err(e) = self.compile_expr(value) {
                    return Err(e);
                }
                self.variable(name, true)
            },
            Expr::Binary(left, op, line, right) => {
                if let Err(e) = self.compile_expr(left) {
                    return Err(e);
                }
                if let Err(e) = self.compile_expr(right) {
                    return Err(e);
                }
                let line = *line;
                match op {
                    BinaryOp::BangEqual => {
                        self.emit(OpCode::Equal, line);
                        self.emit(OpCode::Not, line);
                    },
                    BinaryOp::EqualEqual => {
                        self.emit(OpCode::Equal, line);
                    },
                    BinaryOp::Greater => {
                        self.emit(OpCode::Greater, line);
                    },
                    BinaryOp::GreaterEqual => {
                        self.emit(OpCode::Less, line);
                        self.emit(OpCode::Not, line);
                    },
                    BinaryOp::Less => {
                        self.emit(OpCode::Less, line);
                    },
                    BinaryOp::LessEqual => {
                        self.emit(OpCode::Greater, line);
                        self.emit(OpCode::Not, line);
                    },
                    BinaryOp::Plus => {
                        self.emit(OpCode::Add, line);
                    },
                    BinaryOp::Minus => {
                        self.emit(OpCode::Subtract, line);
                    },
                    BinaryOp::Star => {
                        self.emit(OpCode::Multiply, line);
                    },
                    BinaryOp::Slash => {
                        self.emit(OpCode::Divide, line);
                    },
                }
                Ok(())
            },
            Expr::Logical(left, op, line, right) => {
                if let Err(e) = self.compile_expr(left) {
                    return Err(e);
                }
                match op {
                    LogicalOp::Or => {
                        let else_jump = self.jump(JumpKind::JumpIfFalse);
                        let end_jump = self.jump(JumpKind::Jump);
                        if let Err(e) = self.resolve_jump(&else_jump) {
                            return Err(e);
                        }
                        self.emit(OpCode::Pop, *line);
                        if let Err(e) = self.compile_expr(right) {
                            return Err(e);
                        }
                        self.resolve_jump(&end_jump)
                    },
                    LogicalOp::And => {
                        let jump = self.jump(JumpKind::JumpIfFalse);
                        self.emit(OpCode::Pop, *line);
                        if let Err(e) = self.compile_expr(right) {
                            return Err(e);
                        }
                        self.resolve_jump(&jump)
                    },
                }
            },
            Expr::Unary(op, line, value) => {
                if let Err(e) = self.compile_expr(value) {
                    return Err(e);
                }
                match op {
                    UnaryOp::Bang => self.emit(OpCode::Not, *line),
                    UnaryOp::Minus => self.emit(OpCode::Negate, *line),
                };
                Ok(())
            },
            Expr::Grouping(inner) => self.compile_expr(inner),
            Expr::Var(name) => self.variable(name, false),
            Expr::String(line, text) => match self.add_string(text.clone()) {
                Ok(c) => {
                    self.emit(OpCode::Constant(c), *line);
                    Ok(())
                },
                Err(e) => Err(e),
            },
            Expr::Number(line, bits) => match self.add_constant(Value::Number(*bits)) {
                Ok(c) => {
                    self.emit(OpCode::Constant(c), *line);
                    Ok(())
                },
                Err(e) => Err(e),
            },
            Expr::Boolean(line, b) => {
                self.emit(
                    if *b {
                        OpCode::True
                    } else {
                        OpCode::False
                    },
                    *line,
                );
                Ok(())
            },
            Expr::Nil(line) => {
                self.emit(OpCode::Nil, *line);
                Ok(())
            },
        }
    }

    fn compile_stmt(&mut self, stmt: &Stmt) -> (r: Result<(), CompilerError>)
        requires
            old(self).wf(),
        ensures
            final(self).wf(),
            match compile_stmt(*stmt, old(self).state()) {
                Ok(s) => r is Ok && final(self).state() == s,
                Err(f) => r matches Err(e) && e.fault() == f,
            },
            r is Ok ==> final(self).state().code.len() >= old(self).state().code.len(),
            r is Ok ==> final(self).state().depth == old(self).state().depth,
        decreases stmt, 1int,
    {
        match stmt {
            Stmt::Block(stmts) => {
                if let Err(e) = self.begin_scope() {
                    return Err(e);
                }
                if let Err(e) = self.compile_block(stmts) {
                    return Err(e);
                }
                self.end_scope();
                Ok(())
            },
            Stmt::Expression(e) => {
                if let Err(err) = self.compile_expr(e) {
                    return Err(err);
                }
                self.emit(OpCode::Pop, 0);
                Ok(())
            },
            Stmt::If(..) => self.compile_if(stmt),
            Stmt::Print(e) => {
                if let Err(err) = self.compile_expr(e) {
                    return Err(err);
                }
                self.emit(OpCode::Print, 0);
                Ok(())
            },
            Stmt::Var(name, init) => {
                match init {
                    Some(e) => {
                        if let Err(err) = self.compile_expr(e) {
                            return Err(err);
                        }
                    },
                    None => {
                        self.emit(OpCode::Nil, name.line);
                    },
                }
                self.declare(name)
            },
            Stmt::While(..) => self.compile_while(stmt),
        }
    }

    /// The statements of a block, in order, inside the scope already opened.
    fn compile_block(&mut self, stmts: &Vec<Stmt>) -> (r: Result<(), CompilerError>)
        requires
            old(self).wf(),
        ensures
            final(self).wf(),
            match compile_stmts(stmts@, 0, old(self).state()) {
                Ok(s) => r is Ok && final(self).state() == s,
                Err(f) => r matches Err(e) && e.fault() == f,
            },
            r is Ok ==> final(self).state().code.len() >= old(self).state().code.len(),
            r is Ok ==> final(self).state().depth == old(self).state().depth,
        decreases stmts, 0int,
    {
        let mut i: usize = 0;
        while i < stmts.len()
            invariant
                self.wf(),
                i <= stmts@.len(),
                self.state().depth == old(self).state().depth,
                self.state().code.len() >= old(self).state().code.len(),
                compile_stmts(stmts@, 0, old(self).state()) == compile_stmts(
                    stmts@,
                    i as int,
                    self.state(),
                ),
            decreases stmts@.len() - i,
        {
            proof {
                vstd::std_specs::vec::axiom_vec_index_decreases(*stmts, i as int);
            }
            if let Err(e) = self.compile_stmt(&stmts[i]) {
                return Err(e);
            }
            i = i + 1;
        }
        Ok(())
    }

    fn compile_if(&mut self, stmt: &Stmt) -> (r: Result<(), CompilerError>)
        requires
            old(self).wf(),
            stmt is If,
        ensures
            final(self).wf(),
            match compile_stmt(*stmt, old(self).state()) {
                Ok(s) => r is Ok && final(self).state() == s,
                Err(f) => r matches Err(e) && e.fault() == f,
            },
            r is Ok ==> final(self).state().code.len() >= old(self).state().code.len(),
            r is Ok ==> final(self).state().depth == old(self).state().depth,
        decreases stmt, 0int,
    {
        if let Stmt::If(cond, then_branch, else_branch) = stmt {
            if let Err(e) = self.compile_expr(cond) {
                return Err(e);
            }
            let false_jump = self.jump(JumpKind::JumpIfFalse);
            self.emit(OpCode::Pop, 0);
            if let Err(e) = self.compile_stmt(then_branch) {
                return Err(e);
            }
            let true_jump = self.jump(JumpKind::Jump);
            if let Err(e) = self.resolve_jump(&false_jump) {
                return Err(e);
            }
            self.emit(OpCode::Pop, 0);
            if let Some(other) = else_branch {
                if let Err(e) = self.compile_stmt(other) {
                    return Err(e);
                }
            }
            self.resolve_jump(&true_jump)
        } else {
            Ok(())
        }
    }

    fn compile_while(&mut self, stmt: &Stmt) -> (r: Result<(), CompilerError>)
        requires
            old(self).wf(),
            stmt is While,
        ensures
            final(self).wf(),
            match compile_stmt(*stmt, old(self).state()) {
                Ok(s) => r is Ok && final(self).state() == s,
                Err(f) => r matches Err(e) && e.fault() == f,
            },
            r is Ok ==> final(self).state().code.len() >= old(self).state().code.len(),
            r is Ok ==> final(self).state().depth == old(self).state().depth,
        decreases stmt, 0int,
    {
        if let Stmt::While(cond, body) = stmt {
            let start = self.chunk.len();
            if let Err(e) = self.compile_expr(cond) {
                return Err(e);
            }
            let exit_jump = self.jump(JumpKind::JumpIfFalse);
            self.emit(OpCode::Pop, 0);
            if let Err(e) = self.compile_stmt(body) {
                return Err(e);
            }
            if let Err(e) = self.jump_loop(start) {
                return Err(e);
            }
            if let Err(e) = self.resolve_jump(&exit_jump) {
                return Err(e);
            }
            self.emit(OpCode::Pop, 0);
            Ok(())
        } else {
            Ok(())
        }
    }

    fn emit(&mut self, op: OpCode, line: usize) -> (r: ChunkReference)
        requires
            old(self).wf(),
        ensures
            final(self).wf(),
            final(self).state() == emit(old(self).state(), op, line),
            r.spec_offset() == old(self).state().code.len(),
            r.spec_length() == op.spec_byte_length(),
    {
        let r = self.chunk.add(op, line);
        assert(self.state().locals == old(self).state().locals);
        r
    }

    fn add_constant(&mut self, v: Value) -> (r: Result<u8, CompilerError>)
        requires
            old(self).wf(),
        ensures
            final(self).wf(),
            match intern(old(self).state(), v@) {
                Ok((s, c)) => r == Ok::<u8, CompilerError>(c) && final(self).state() == s,
                Err(f) => r matches Err(e) && e.fault() == f,
            },
    {
        match self.chunk.add_constant(v) {
            Ok(c) => Ok(c),
            Err(_) => Err(CompilerError::TooManyConstants),
        }
    }

    fn add_string(&mut self, s: String) -> (r: Result<u8, CompilerError>)
        requires
            old(self).wf(),
        ensures
            final(self).wf(),
            match intern(old(self).state(), Datum::Text(s@)) {
                Ok((st, c)) => r == Ok::<u8, CompilerError>(c) && final(self).state() == st,
                Err(f) => r matches Err(e) && e.fault() == f,
            },
    {
        self.add_constant(Value::new_string(s))
    }

    fn jump(&mut self, kind: JumpKind) -> (r: JumpPatchReference)
        requires
            old(self).wf(),
        ensures
            final(self).wf(),
            final(self).state() == placeholder(old(self).state()),
            r.offset == old(self).state().code.len(),
            r.kind == kind,
            r.fits(final(self).state().code.len()),
    {
        let offset = self.chunk.len();
        let chunk_ref = self.emit(OpCode::Jump(0), 0);
        JumpPatchReference { chunk_ref, offset, kind }
    }

    fn resolve_jump(&mut self, jump: &JumpPatchReference) -> (r: Result<(), CompilerError>)
        requires
            old(self).wf(),
            jump.fits(old(self).state().code.len()),
        ensures
            final(self).wf(),
            match resolve(old(self).state(), jump.offset as int, jump.kind) {
                Ok(s) => r is Ok && final(self).state() == s,
                Err(f) => r matches Err(e) && e.fault() == f,
            },
            final(self).state().code.len() == old(self).state().code.len(),
            final(self).state().depth == old(self).state().depth,
    {
        let distance = self.chunk.len() - jump.offset;
        if distance > MAX_JUMP {
            return Err(CompilerError::JumpTooLarge);
        }
        let op = match jump.kind {
            JumpKind::Jump => OpCode::Jump(distance as i16),
            JumpKind::JumpIfFalse => OpCode::JumpIfFalse(distance as i16),
        };
        self.chunk.patch(&jump.chunk_ref, op);
        Ok(())
    }

    fn jump_loop(&mut self, start: usize) -> (r: Result<(), CompilerError>)
        requires
            old(self).wf(),
            start <= old(self).state().code.len(),
        ensures
            final(self).wf(),
            match jump_back(old(self).state(), start as int) {
                Ok(s) => r is Ok && final(self).state() == s,
                Err(f) => r matches Err(e) && e.fault() == f,
            },
    {
        let distance = self.chunk.len() - start;
        if distance > MAX_JUMP + 1 {
            return Err(CompilerError::JumpTooLarge);
        }
        let offset = (0 - distance as i32) as i16;
        self.emit(OpCode::Jump(offset), 0);
        Ok(())
    }

    fn resolve_local(&self, name: &String) -> (r: Option<u8>)
        requires
            self.wf(),
        ensures
            match resolve_local(self.state().locals, name@) {
                Some(i) => r == Some(i as u8),
                None => r is None,
            },
            match r {
                Some(i) => i < self.state().locals.len() && self.state().locals[i as int].0 == name@
                    && forall|j: int|
                    i < j < self.state().locals.len() ==> #[trigger] self.state().locals[j].0 != name@,
                None => forall|j: int|
                    0 <= j < self.state().locals.len() ==> #[trigger] self.state().locals[j].0 != name@,
            },
    {
        proof {
            lemma_resolve_innermost(self.state().locals, name@);
        }
        let ghost all = self.state().locals;
        let ghost found = resolve_local(all, name@);
        let mut i = self.locals.len();
        assert(all.subrange(0, i as int) =~= all);
        while i > 0
            invariant
                i <= all.len(),
                all == self.state().locals,
                all.len() <= MAX_LOCALS,
                found == resolve_local(all, name@),
                match found {
                    Some(k) => 0 <= k < all.len() && all[k].0 == name@ && forall|j: int|
                        k < j < all.len() ==> #[trigger] all[j].0 != name@,
                    None => forall|j: int| 0 <= j < all.len() ==> #[trigger] all[j].0 != name@,
                },
                resolve_local(all, name@) == resolve_local(all.subrange(0, i as int), name@),
            decreases i,
        {
            assert(all.subrange(0, i as int).drop_last() =~= all.subrange(0, i - 1));
            if self.locals[i - 1].name == *name {
                return Some((i - 1) as u8);
            }
            i = i - 1;
        }
        None
    }

    fn declared_here(&self, name: &String) -> (r: bool)
        ensures
            r == declared_at(self.state().locals, name@, self.state().depth),
    {
        let ghost all = self.state().locals;
        let mut i: usize = 0;
        while i < self.locals.len()
            invariant
                i <= all.len(),
                all == self.state().locals,
                forall|j: int| 0 <= j < i ==> #[trigger] all[j] != (name@, self.scope_depth),
            decreases all.len() - i,
        {
            if self.locals[i].scope_depth == self.scope_depth && self.locals[i].name == *name {
                assert(all[i as int] == (name@, self.scope_depth));
                return true;
            }
            i = i + 1;
        }
        false
    }

    fn declare(&mut self, name: &Name) -> (r: Result<(), CompilerError>)
        requires
            old(self).wf(),
        ensures
            final(self).wf(),
            match declare(old(self).state(), *name) {
                Ok(s) => r is Ok && final(self).state() == s,
                Err(f) => r matches Err(e) && e.fault() == f,
            },
            r is Ok ==> final(self).state().depth == old(self).state().depth,
            r is Ok ==> final(self).state().code.len() >= old(self).state().code.len(),
    {
        if self.scope_depth > 0 {
            if self.locals.len() == MAX_LOCALS {
                return Err(CompilerError::TooManyLocals);
            }
            if self.declared_here(&name.lexeme) {
                return Err(CompilerError::VariableAlreadyDeclared(name.lexeme.clone()));
            }
            let ghost before = self.state().locals;
            self.locals.push(Local { name: name.lexeme.clone(), scope_depth: self.scope_depth });
            assert(self.state().locals =~= before.push((name.lexeme@, self.scope_depth)));
            Ok(())
        } else {
            match self.add_string(name.lexeme.clone()) {
                Ok(c) => {
                    self.emit(OpCode::DefineGlobal(c), 0);
                    Ok(())
                },
                Err(e) => Err(e),
            }
        }
    }

    fn variable(&mut self, name: &Name, set: bool) -> (r: Result<(), CompilerError>)
        requires
            old(self).wf(),
        ensures
            final(self).wf(),
            match variable(old(self).state(), *name, set) {
                Ok(s) => r is Ok && final(self).state() == s,
                Err(f) => r matches Err(e) && e.fault() == f,
            },
    {
        match self.resolve_local(&name.lexeme) {
            Some(i) => {
                let op = if set {
                    OpCode::SetLocal(i)
                } else {
                    OpCode::GetLocal(i)
                };
                self.emit(op, name.line);
                Ok(())
            },
            None => match self.add_string(name.lexeme.clone()) {
                Ok(c) => {
                    let op = if set {
                        OpCode::SetGlobal(c)
                    } else {
                        OpCode::GetGlobal(c)
                    };
                    self.emit(op, name.line);
                    Ok(())
                },
                Err(e) => Err(e),
            },
        }
    }

    fn begin_scope(&mut self) -> (r: Result<(), CompilerError>)
        requires
            old(self).wf(),
        ensures
            final(self).wf(),
            match begin_scope(old(self).state()) {
                Ok(s) => r is Ok && final(self).state() == s,
                Err(f) => r matches Err(e) && e.fault() == f,
            },
    {
        if self.scope_depth == MAX_DEPTH {
            return Err(CompilerError::TooDeeplyNested);
        }
        self.scope_depth = self.scope_depth + 1;
        Ok(())
    }

    fn end_scope(&mut self)
        requires
            old(self).wf(),
            old(self).state().depth > 0,
        ensures
            final(self).wf(),
            final(self).state() == end_scope(old(self).state()),
            final(self).state().depth == old(self).state().depth - 1,
            final(self).state().code.len() >= old(self).state().code.len(),
    {
        self.scope_depth = self.scope_depth - 1;
        proof {
            lemma_close_locals(self.state());
        }
        let ghost target = close_locals(self.state());
        let mut more = self.locals.len() > 0 && self.locals[self.locals.len() - 1].scope_depth
            > self.scope_depth;
        while more
            invariant
                self.chunk.wf(),
                self.locals@.len() <= MAX_LOCALS,
                outer_first(self.state().locals),
                close_locals(self.state()) == target,
                self.scope_depth == old(self).scope_depth - 1,
                self.state().code.len() >= old(self).state().code.len(),
                more == (self.state().locals.len() > 0 && self.state().locals.last().1
                    > self.state().depth),
            decreases self.locals@.len(),
        {
            let ghost before = self.state();
            self.locals.pop();
            assert(self.state().locals =~= before.locals.drop_last());
            self.chunk.add(OpCode::Pop, 0);
            more = self.locals.len() > 0 && self.locals[self.locals.len() - 1].scope_depth
                > self.scope_depth;
        }
        assert(close_locals(self.state()) == self.state());
    }
}

} // verus!
