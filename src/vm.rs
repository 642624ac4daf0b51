use std::rc::Rc;
use crate::chunk::{line_at, Chunk};
use crate::op::{decoded, tag_width, DecodeError, OpCode};
use crate::value::{
    datum_eq, number_less, number_lt, number_negate, text_of, truthy, Datum, Value,
    SIGN_BIT,
};
use vstd::prelude::*;

verus! {

/// An arithmetic operation on two numbers, which the host carries out.
#[derive(Clone, Copy, Debug, PartialEq, Eq, Structural)]
pub enum ArithOp {
    Add,
    Subtract,
    Multiply,
    Divide,
}

/// What `VM::step` asks of its host.
#[derive(Debug)]
pub enum Action {
    /// The instruction ran to completion inside the machine.
    Continue,
    /// The program has ended.
    Halt,
    /// Write this text and a newline.
    Print(String),
    /// Apply the operation to the two doubles (left, right) and hand the bits
    /// of the result to `resume_number`.
    Arithmetic(ArithOp, u64, u64),
    /// Hand the decimal text of this double to `resume_text`.
    Format(u64),
}

#[derive(Debug)]
pub enum VMError {
    Decode(DecodeError),
    InvalidOpCode(u8),
    InvalidConstant(u8, String),
    StackTooSmall(usize, usize),
    Runtime(usize, RuntimeError),
}

#[derive(Debug)]
pub enum RuntimeError {
    ExpectedNumber,
    ExpectedString,
    ExpectedIdentifier,
    UndefinedGlobal(String),
    UndefinedLocal(u8),
    InvalidAdditionArguments,
}

/// How an instruction that waits on the host is finished.
pub enum Pending {
    Idle,
    /// Push the number that `resume_number` brings.
    Number,
    /// Print the text that `resume_text` brings.
    Print,
    /// Push this string followed by the text that `resume_text` brings.
    Append(String),
    /// Push the text that `resume_text` brings followed by this string.
    Prepend(String),
}

pub enum Resumption {
    Idle,
    Number,
    Print,
    Append(Seq<char>),
    Prepend(Seq<char>),
}

impl View for Pending {
    type V = Resumption;

    open spec fn view(&self) -> Resumption {
        match self {
            Pending::Idle => Resumption::Idle,
            Pending::Number => Resumption::Number,
            Pending::Print => Resumption::Print,
            Pending::Append(s) => Resumption::Append(s@),
            Pending::Prepend(s) => Resumption::Prepend(s@),
        }
    }
}

struct Global {
    name: String,
    value: Value,
}

/// The state of the machine between instructions.
pub struct Machine {
    pub ip: int,
    pub stack: Seq<Datum>,
    pub globals: Map<Seq<char>, Datum>,
}

pub enum RuntimeFault {
    ExpectedNumber,
    ExpectedString,
    ExpectedIdentifier,
    UndefinedGlobal(Seq<char>),
    UndefinedLocal(u8),
    InvalidAdditionArguments,
}

/// Why an instruction could not be read.
pub enum DecodeFault {
    /// The instruction pointer is past the end of the code.
    EOF,
    /// The instruction's operand runs past the end of the code.
    UnexpectedEOF,
}

pub enum Fault {
    Decode(DecodeFault),
    InvalidOpCode(u8),
    InvalidConstant(u8),
    StackTooSmall(usize, usize),
    Runtime(usize, RuntimeFault),
}

/// What one instruction does to the machine.
pub enum Transition {
    Continue(Machine),
    Halt(Machine),
    Print(Machine, Seq<char>),
    Arithmetic(Machine, ArithOp, u64, u64),
    Format(Machine, u64, Resumption),
    Fault(Fault),
}

impl RuntimeError {
    pub open spec fn fault(&self) -> RuntimeFault {
        match self {
            RuntimeError::ExpectedNumber => RuntimeFault::ExpectedNumber,
            RuntimeError::ExpectedString => RuntimeFault::ExpectedString,
            RuntimeError::ExpectedIdentifier => RuntimeFault::ExpectedIdentifier,
            RuntimeError::UndefinedGlobal(s) => RuntimeFault::UndefinedGlobal(s@),
            RuntimeError::UndefinedLocal(i) => RuntimeFault::UndefinedLocal(*i),
            RuntimeError::InvalidAdditionArguments => RuntimeFault::InvalidAdditionArguments,
        }
    }
}

impl VMError {
    pub open spec fn fault(&self) -> Fault {
        match self {
            VMError::Decode(DecodeError::EOF) => Fault::Decode(DecodeFault::EOF),
            VMError::Decode(DecodeError::UnexpectedEOF(..)) => Fault::Decode(DecodeFault::UnexpectedEOF),
            VMError::InvalidOpCode(b) => Fault::InvalidOpCode(*b),
            VMError::InvalidConstant(i, _) => Fault::InvalidConstant(*i),
            VMError::StackTooSmall(a, b) => Fault::StackTooSmall(*a, *b),
            VMError::Runtime(l, e) => Fault::Runtime(*l, e.fault()),
        }
    }
}

impl Action {
    /// The transition that this action reports, given the machine and the
    /// pending work after it.
    pub open spec fn reports(&self, m: Machine, p: Resumption) -> Transition {
        match self {
            Action::Continue => Transition::Continue(m),
            Action::Halt => Transition::Halt(m),
            Action::Print(t) => Transition::Print(m, t@),
            Action::Arithmetic(op, a, b) => Transition::Arithmetic(m, *op, *a, *b),
            Action::Format(n) => Transition::Format(m, *n, p),
        }
    }
}

pub open spec fn with_stack(m: Machine, ip: int, stack: Seq<Datum>) -> Machine {
    Machine { ip, stack, globals: m.globals }
}

/// The two top entries as numbers (left below right), or the fault that
/// reading them gives.
pub open spec fn number_operands(stack: Seq<Datum>, line: usize) -> Result<(u64, u64), Fault> {
    let n = stack.len();
    if n < 1 {
        Err(Fault::StackTooSmall(1, 0))
    } else if !(stack[n - 1] is Number) {
        Err(Fault::Runtime(line, RuntimeFault::ExpectedNumber))
    } else if n < 2 {
        Err(Fault::StackTooSmall(2, 1))
    } else if !(stack[n - 2] is Number) {
        Err(Fault::Runtime(line, RuntimeFault::ExpectedNumber))
    } else {
        Ok((stack[n - 2]->Number_0, stack[n - 1]->Number_0))
    }
}

/// A jump by `offset` from the instruction at `ip`.
pub open spec fn jump_to(m: Machine, ip: int, offset: i16) -> Transition {
    let target = ip + offset;
    if 0 <= target <= usize::MAX {
        Transition::Continue(with_stack(m, target, m.stack))
    } else {
        Transition::Fault(Fault::Decode(DecodeFault::EOF))
    }
}

/// The name held by pool entry `i`, or the fault that reading it gives.
pub open spec fn identifier(consts: Seq<Datum>, i: u8, line: usize) -> Result<Seq<char>, Fault> {
    if i >= consts.len() {
        Err(Fault::InvalidConstant(i))
    } else {
        match consts[i as int] {
            Datum::Text(s) => Ok(s),
            _ => Err(Fault::Runtime(line, RuntimeFault::ExpectedIdentifier)),
        }
    }
}

pub open spec fn global_transition(
    op: OpCode,
    consts: Seq<Datum>,
    line: usize,
    m: Machine,
    next: int,
) -> Transition {
    let st = m.stack;
    let n = st.len();
    match op {
        OpCode::GetGlobal(i) => match identifier(consts, i, line) {
            Err(f) => Transition::Fault(f),
            Ok(name) => if m.globals.contains_key(name) {
                Transition::Continue(with_stack(m, next, st.push(m.globals[name])))
            } else {
                Transition::Fault(Fault::Runtime(line, RuntimeFault::UndefinedGlobal(name)))
            },
        },
        OpCode::DefineGlobal(i) => match identifier(consts, i, line) {
            Err(f) => Transition::Fault(f),
            Ok(name) => if n < 1 {
                Transition::Fault(Fault::StackTooSmall(1, 0))
            } else {
                Transition::Continue(
                    Machine { ip: next, stack: st.drop_last(), globals: m.globals.insert(name, st.last()) },
                )
            },
        },
        OpCode::SetGlobal(i) => match identifier(consts, i, line) {
            Err(f) => Transition::Fault(f),
            Ok(name) => if n < 1 {
                Transition::Fault(Fault::StackTooSmall(1, 0))
            } else if !m.globals.contains_key(name) {
                Transition::Fault(Fault::Runtime(line, RuntimeFault::UndefinedGlobal(name)))
            } else {
                Transition::Continue(
                    Machine { ip: next, stack: st, globals: m.globals.insert(name, st.last()) },
                )
            },
        },
        _ => Transition::Fault(Fault::Decode(DecodeFault::EOF)),
    }
}

pub open spec fn add_transition(line: usize, m: Machine, next: int) -> Transition {
    let st = m.stack;
    let n = st.len();
    if n < 1 {
        Transition::Fault(Fault::StackTooSmall(1, 0))
    } else if n < 2 {
        Transition::Fault(Fault::StackTooSmall(2, 1))
    } else {
        let l = st[n - 2];
        let r = st[n - 1];
        let rest = with_stack(m, next, st.subrange(0, n - 2));
        match (l, r) {
            (Datum::Number(a), Datum::Number(b)) => Transition::Arithmetic(rest, ArithOp::Add, a, b),
            (Datum::Text(s), Datum::Number(b)) => Transition::Format(rest, b, Resumption::Append(s)),
            (Datum::Text(s), _) => Transition::Continue(
                with_stack(m, next, rest.stack.push(Datum::Text(s + text_of(r)))),
            ),
            (Datum::Number(a), Datum::Text(s)) => Transition::Format(rest, a, Resumption::Prepend(s)),
            (_, Datum::Text(s)) => Transition::Continue(
                with_stack(m, next, rest.stack.push(Datum::Text(text_of(l) + s))),
            ),
            _ => Transition::Fault(Fault::Runtime(line, RuntimeFault::InvalidAdditionArguments)),
        }
    }
}

pub open spec fn value_transition(
    op: OpCode,
    consts: Seq<Datum>,
    line: usize,
    m: Machine,
    ip: int,
    next: int,
) -> Transition {
    let st = m.stack;
    let n = st.len();
    match op {
        OpCode::Constant(i) => if i < consts.len() {
            Transition::Continue(with_stack(m, next, st.push(consts[i as int])))
        } else {
            Transition::Fault(Fault::InvalidConstant(i))
        },
        OpCode::True => Transition::Continue(with_stack(m, next, st.push(Datum::Boolean(true)))),
        OpCode::False => Transition::Continue(with_stack(m, next, st.push(Datum::Boolean(false)))),
        OpCode::Nil => Transition::Continue(with_stack(m, next, st.push(Datum::Nil))),
        OpCode::Pop => if n < 1 {
            Transition::Fault(Fault::StackTooSmall(1, 0))
        } else {
            Transition::Continue(with_stack(m, next, st.drop_last()))
        },
        OpCode::GetLocal(i) => if i < n {
            Transition::Continue(with_stack(m, next, st.push(st[i as int])))
        } else {
            Transition::Fault(Fault::Runtime(line, RuntimeFault::UndefinedLocal(i)))
        },
        OpCode::SetLocal(i) => if n < 1 {
            Transition::Fault(Fault::StackTooSmall(1, 0))
        } else if i < n {
            Transition::Continue(with_stack(m, next, st.update(i as int, st.last())))
        } else {
            Transition::Fault(Fault::Runtime(line, RuntimeFault::UndefinedLocal(i)))
        },
        OpCode::Not => if n < 1 {
            Transition::Fault(Fault::StackTooSmall(1, 0))
        } else {
            Transition::Continue(
                with_stack(m, next, st.drop_last().push(Datum::Boolean(!truthy(st.last())))),
            )
        },
        OpCode::Print => if n < 1 {
            Transition::Fault(Fault::StackTooSmall(1, 0))
        } else {
            match st.last() {
                Datum::Number(k) => Transition::Format(
                    with_stack(m, next, st.drop_last()),
                    k,
                    Resumption::Print,
                ),
                d => Transition::Print(with_stack(m, next, st.drop_last()), text_of(d)),
            }
        },
        OpCode::Jump(o) => jump_to(m, ip, o),
        OpCode::JumpIfFalse(o) => if n < 1 {
            Transition::Fault(Fault::StackTooSmall(1, 0))
        } else if !truthy(st.last()) {
            jump_to(m, ip, o)
        } else {
            Transition::Continue(with_stack(m, next, st))
        },
        OpCode::Return => Transition::Halt(m),
        OpCode::Unknown(b) => Transition::Fault(Fault::InvalidOpCode(b)),
        _ => global_transition(op, consts, line, m, next),
    }
}

pub open spec fn number_transition(op: OpCode, line: usize, m: Machine, next: int) -> Transition {
    let st = m.stack;
    let n = st.len();
    match op {
        OpCode::Equal => if n < 2 {
            Transition::Fault(Fault::StackTooSmall(1, 0))
        } else {
            Transition::Continue(
                with_stack(
                    m,
                    next,
                    st.subrange(0, n - 2).push(Datum::Boolean(datum_eq(st[n - 2], st[n - 1]))),
                ),
            )
        },
        OpCode::Add => add_transition(line, m, next),
        OpCode::Negate => if n < 1 {
            Transition::Fault(Fault::StackTooSmall(1, 0))
        } else {
            match st.last() {
                Datum::Number(k) => Transition::Continue(
                    with_stack(m, next, st.drop_last().push(Datum::Number(k ^ SIGN_BIT))),
                ),
                _ => Transition::Fault(Fault::Runtime(line, RuntimeFault::ExpectedNumber)),
            }
        },
        _ => match number_operands(st, line) {
            Err(f) => Transition::Fault(f),
            Ok((a, b)) => {
                let rest = with_stack(m, next, st.subrange(0, n - 2));
                match op {
                    OpCode::Greater => Transition::Continue(
                        with_stack(m, next, rest.stack.push(Datum::Boolean(number_lt(b, a)))),
                    ),
                    OpCode::Less => Transition::Continue(
                        with_stack(m, next, rest.stack.push(Datum::Boolean(number_lt(a, b)))),
                    ),
                    OpCode::Subtract => Transition::Arithmetic(rest, ArithOp::Subtract, a, b),
                    OpCode::Multiply => Transition::Arithmetic(rest, ArithOp::Multiply, a, b),
                    _ => Transition::Arithmetic(rest, ArithOp::Divide, a, b),
                }
            },
        },
    }
}

pub open spec fn is_number_op(op: OpCode) -> bool {
    op is Equal || op is Greater || op is Less || op is Add || op is Subtract || op is Multiply
        || op is Divide || op is Negate
}

fn is_number(op: OpCode) -> (r: bool)
    ensures
        r == is_number_op(op),
{
    match op {
        OpCode::Equal | OpCode::Greater | OpCode::Less | OpCode::Add | OpCode::Subtract
        | OpCode::Multiply | OpCode::Divide | OpCode::Negate => true,
        _ => false,
    }
}

/// What the instruction at `m.ip` of chunk `c` does. Reaching the very end
/// of the code ends the program, as `Return` does.
pub open spec fn transition(c: Chunk, m: Machine) -> Transition {
    let code = c.spec_code();
    let ip = m.ip;
    if ip == code.len() {
        Transition::Halt(m)
    } else if ip < 0 || ip > code.len() {
        Transition::Fault(Fault::Decode(DecodeFault::EOF))
    } else if ip + tag_width(code[ip]) > code.len() {
        Transition::Fault(Fault::Decode(DecodeFault::UnexpectedEOF))
    } else {
        let op = decoded(code.subrange(ip, code.len() as int));
        let next = ip + tag_width(code[ip]);
        let line = line_at(c.spec_lines(), ip);
        if is_number_op(op) {
            number_transition(op, line, m, next)
        } else {
            value_transition(op, c.spec_constants(), line, m, ip, next)
        }
    }
}

/// The machine that runs a chunk: its instruction pointer, evaluation stack
/// and globals table.
pub struct VM {
    chunk: Rc<Chunk>,
    ip: usize,
    stack: Vec<Value>,
    globals: Vec<Global>,
    pending: Pending,
}

pub open spec fn names_unique(gs: Seq<(Seq<char>, Datum)>) -> bool {
    forall|i: int, j: int| 0 <= i < j < gs.len() ==> #[trigger] gs[i].0 != #[trigger] gs[j].0
}

pub open spec fn to_map(gs: Seq<(Seq<char>, Datum)>) -> Map<Seq<char>, Datum>
    decreases gs.len(),
{
    if gs.len() == 0 {
        Map::empty()
    } else {
        to_map(gs.drop_last()).insert(gs.last().0, gs.last().1)
    }
}

proof fn lemma_to_map_index(gs: Seq<(Seq<char>, Datum)>, i: int)
    requires
        names_unique(gs),
        0 <= i < gs.len(),
    ensures
        to_map(gs).contains_key(gs[i].0),
        to_map(gs)[gs[i].0] == gs[i].1,
    decreases gs.len(),
{
    if i < gs.len() - 1 {
        let rest = gs.drop_last();
        assert(rest[i] == gs[i]);
        lemma_to_map_index(rest, i);
    }
}

proof fn lemma_to_map_absent(gs: Seq<(Seq<char>, Datum)>, k: Seq<char>)
    requires
        forall|i: int| 0 <= i < gs.len() ==> #[trigger] gs[i].0 != k,
    ensures
        !to_map(gs).contains_key(k),
    decreases gs.len(),
{
    if gs.len() > 0 {
        let rest = gs.drop_last();
        assert forall|i: int| 0 <= i < rest.len() implies #[trigger] rest[i].0 != k by {
            assert(rest[i] == gs[i]);
        }
        lemma_to_map_absent(rest, k);
        assert(gs[gs.len() - 1].0 != k);
    }
}

proof fn lemma_to_map_update(gs: Seq<(Seq<char>, Datum)>, i: int, d: Datum)
    requires
        names_unique(gs),
        0 <= i < gs.len(),
    ensures
        names_unique(gs.update(i, (gs[i].0, d))),
        to_map(gs.update(i, (gs[i].0, d))) == to_map(gs).insert(gs[i].0, d),
    decreases gs.len(),
{
    let u = gs.update(i, (gs[i].0, d));
    assert forall|a: int, b: int| 0 <= a < b < u.len() implies #[trigger] u[a].0 != #[trigger] u[b].0 by {
        assert(u[a].0 == gs[a].0);
        assert(u[b].0 == gs[b].0);
    }
    if i == gs.len() - 1 {
        assert(u.drop_last() =~= gs.drop_last());
        let rest = gs.drop_last();
        assert forall|j: int| 0 <= j < rest.len() implies #[trigger] rest[j].0 != gs[i].0 by {
            assert(rest[j] == gs[j]);
        }
        lemma_to_map_absent(rest, gs[i].0);
        assert(to_map(u) =~= to_map(gs).insert(gs[i].0, d));
    } else {
        let rest = gs.drop_last();
        assert(u.drop_last() =~= rest.update(i, (rest[i].0, d)));
        assert forall|a: int, b: int| 0 <= a < b < rest.len() implies #[trigger] rest[a].0
            != #[trigger] rest[b].0 by {
            assert(rest[a] == gs[a]);
            assert(rest[b] == gs[b]);
        }
        lemma_to_map_update(rest, i, d);
        assert(gs.last().0 != gs[i].0);
        assert(to_map(u) =~= to_map(gs).insert(gs[i].0, d));
    }
}

impl VM {
    closed spec fn entries(&self) -> Seq<(Seq<char>, Datum)> {
        self.globals@.map_values(|g: Global| (g.name@, g.value@))
    }

    pub closed spec fn machine(&self) -> Machine {
        Machine {
            ip: self.ip as int,
            stack: self.stack@.map_values(|v: Value| v@),
            globals: to_map(self.entries()),
        }
    }

    pub closed spec fn spec_chunk(&self) -> Chunk {
        *self.chunk
    }

    pub closed spec fn pending(&self) -> Resumption {
        self.pending@
    }

    pub closed spec fn wf(&self) -> bool {
        names_unique(self.entries())
    }

    /// A machine at the start of `chunk`, with an empty stack and no globals.
    pub fn new(chunk: Rc<Chunk>) -> (r: VM)
        ensures
            r.wf(),
            r.spec_chunk() == *chunk,
            r.machine() == (Machine { ip: 0, stack: Seq::empty(), globals: Map::empty() }),
            r.pending() == Resumption::Idle,
    {
        let r = VM { chunk, ip: 0, stack: Vec::new(), globals: Vec::new(), pending: Pending::Idle };
        assert(r.machine().stack =~= Seq::<Datum>::empty());
        assert(r.entries() =~= Seq::<(Seq<char>, Datum)>::empty());
        r
    }

    closed spec fn line_here(&self) -> usize {
        line_at(self.chunk.spec_lines(), self.ip as int)
    }

    closed spec fn model(stack: Seq<Value>) -> Seq<Datum> {
        stack.map_values(|v: Value| v@)
    }

    /// A user-program fault, with the line of the current instruction.
    fn runtime(&self, e: RuntimeError) -> (r: VMError)
        ensures
            r.fault() == Fault::Runtime(self.line_here(), e.fault()),
    {
        VMError::Runtime(self.chunk.line(self.ip), e)
    }

    fn push(&mut self, v: Value, next: usize)
        ensures
            final(self).machine() == with_stack(
                old(self).machine(),
                next as int,
                old(self).machine().stack.push(v@),
            ),
            final(self).chunk == old(self).chunk,
            final(self).globals == old(self).globals,
            final(self).pending == old(self).pending,
    {
        let ghost before = self.stack@;
        self.stack.push(v);
        self.ip = next;
        assert(Self::model(self.stack@) =~= Self::model(before).push(v@));
    }

    /// Takes the top `k` entries off the stack.
    fn drop_top(&mut self, k: usize)
        requires
            k <= old(self).stack@.len(),
        ensures
            final(self).machine() == with_stack(
                old(self).machine(),
                old(self).ip as int,
                old(self).machine().stack.subrange(0, old(self).stack@.len() - k),
            ),
            final(self).stack@ == old(self).stack@.subrange(0, old(self).stack@.len() - k),
            final(self).chunk == old(self).chunk,
            final(self).globals == old(self).globals,
            final(self).pending == old(self).pending,
            final(self).ip == old(self).ip,
    {
        let ghost before = self.stack@;
        let n = self.stack.len();
        self.stack.truncate(n - k);
        assert(Self::model(self.stack@) =~= Self::model(before).subrange(0, before.len() - k));
    }

    /// The name held by pool entry `i`.
    fn identifier(&self, i: u8) -> (r: Result<String, VMError>)
        ensures
            match identifier(self.chunk.spec_constants(), i, self.line_here()) {
                Ok(s) => r matches Ok(t) && t@ == s,
                Err(f) => r matches Err(e) && e.fault() == f,
            },
    {
        match self.chunk.constant(i) {
            Err(e) => Err(VMError::InvalidConstant(i, e)),
            Ok(v) => match v.as_text() {
                Some(s) => Ok(s.clone()),
                None => Err(self.runtime(RuntimeError::ExpectedIdentifier)),
            },
        }
    }

    /// Where the global `name` sits in the table.
    fn find_global(&self, name: &String) -> (r: Option<usize>)
        ensures
            match r {
                Some(i) => i < self.entries().len() && self.entries()[i as int].0 == name@,
                None => forall|j: int|
                    0 <= j < self.entries().len() ==> #[trigger] self.entries()[j].0 != name@,
            },
    {
        let mut i: usize = 0;
        while i < self.globals.len()
            invariant
                i <= self.globals@.len(),
                forall|j: int| 0 <= j < i ==> #[trigger] self.entries()[j].0 != name@,
            decreases self.globals@.len() - i,
        {
            if self.globals[i].name == *name {
                return Some(i);
            }
            i = i + 1;
        }
        None
    }

    fn global_step(&mut self, op: OpCode, next: usize) -> (r: Result<Action, VMError>)
        requires
            old(self).wf(),
            op is GetGlobal || op is DefineGlobal || op is SetGlobal,
        ensures
            r is Err ==> final(self).machine() == old(self).machine(),
            final(self).wf(),
            final(self).chunk == old(self).chunk,
            final(self).pending == old(self).pending,
            match r {
                Ok(a) => a is Continue && global_transition(
                    op,
                    old(self).chunk.spec_constants(),
                    old(self).line_here(),
                    old(self).machine(),
                    next as int,
                ) == a.reports(final(self).machine(), final(self).pending()),
                Err(e) => global_transition(
                    op,
                    old(self).chunk.spec_constants(),
                    old(self).line_here(),
                    old(self).machine(),
                    next as int,
                ) == Transition::Fault(e.fault()),
            },
    {
        let ghost m = self.machine();
        let index = match op {
            OpCode::GetGlobal(i) => i,
            OpCode::DefineGlobal(i) => i,
            OpCode::SetGlobal(i) => i,
            _ => 0,
        };
        let name = match self.identifier(index) {
            Ok(name) => name,
            Err(e) => return Err(e),
        };
        let found = self.find_global(&name);
        let n = self.stack.len();
        match op {
            OpCode::GetGlobal(_) => match found {
                Some(i) => {
                    proof {
                        lemma_to_map_index(self.entries(), i as int);
                    }
                    let v = self.globals[i].value.duplicate();
                    assert(v@ == m.globals[name@]);
                    self.push(v, next);
                    Ok(Action::Continue)
                },
                None => {
                    proof {
                        lemma_to_map_absent(self.entries(), name@);
                    }
                    Err(self.runtime(RuntimeError::UndefinedGlobal(name)))
                },
            },
            OpCode::DefineGlobal(_) => {
                if n < 1 {
                    return Err(VMError::StackTooSmall(1, 0));
                }
                let v = self.stack[n - 1].duplicate();
                assert(v@ == m.stack.last());
                let ghost old_entries = self.entries();
                match found {
                    Some(i) => {
                        proof {
                            lemma_to_map_update(old_entries, i as int, v@);
                        }
                        self.globals.set(i, Global { name, value: v });
                        assert(self.entries() =~= old_entries.update(
                            i as int,
                            (old_entries[i as int].0, v@),
                        ));
                    },
                    None => {
                        let ghost key = name@;
                        self.globals.push(Global { name, value: v });
                        assert(self.entries() =~= old_entries.push((key, v@)));
                        assert(self.entries().drop_last() =~= old_entries);
                    },
                }
                self.drop_top(1);
                self.ip = next;
                assert(self.machine().stack =~= m.stack.drop_last());
                Ok(Action::Continue)
            },
            _ => {
                if n < 1 {
                    return Err(VMError::StackTooSmall(1, 0));
                }
                match found {
                    Some(i) => {
                        let v = self.stack[n - 1].duplicate();
                        assert(v@ == m.stack.last());
                        let ghost old_entries = self.entries();
                        proof {
                            lemma_to_map_index(old_entries, i as int);
                            lemma_to_map_update(old_entries, i as int, v@);
                        }
                        self.globals.set(i, Global { name, value: v });
                        assert(self.entries() =~= old_entries.update(
                            i as int,
                            (old_entries[i as int].0, v@),
                        ));
                        self.ip = next;
                        assert(self.machine().stack =~= m.stack);
                        assert(self.machine().globals == m.globals.insert(name@, v@));
                        Ok(Action::Continue)
                    },
                    None => {
                        proof {
                            lemma_to_map_absent(self.entries(), name@);
                        }
                        Err(self.runtime(RuntimeError::UndefinedGlobal(name)))
                    },
                }
            },
        }
    }

    fn jump(&mut self, o: i16) -> (r: Result<Action, VMError>)
        ensures
            r is Err ==> final(self).machine() == old(self).machine(),
            final(self).chunk == old(self).chunk,
            final(self).globals == old(self).globals,
            final(self).pending == old(self).pending,
            match r {
                Ok(a) => a is Continue && jump_to(old(self).machine(), old(self).ip as int, o)
                    == a.reports(final(self).machine(), final(self).pending()),
                Err(e) => jump_to(old(self).machine(), old(self).ip as int, o) == Transition::Fault(
                    e.fault(),
                ),
            },
    {
        let ip = self.ip;
        if o >= 0 {
            let d = o as usize;
            if ip <= usize::MAX - d {
                self.ip = ip + d;
                Ok(Action::Continue)
            } else {
                Err(VMError::Decode(DecodeError::EOF))
            }
        } else {
            let d = (-(o as i32)) as usize;
            if d <= ip {
                self.ip = ip - d;
                Ok(Action::Continue)
            } else {
                Err(VMError::Decode(DecodeError::EOF))
            }
        }
    }

    fn value_step(&mut self, op: OpCode, next: usize) -> (r: Result<Action, VMError>)
        requires
            old(self).wf(),
            !is_number_op(op),
        ensures
            r is Err ==> final(self).pending == old(self).pending,
            r is Err ==> final(self).machine() == old(self).machine(),
            final(self).wf(),
            final(self).chunk == old(self).chunk,
            match r {
                Ok(a) => value_transition(
                    op,
                    old(self).chunk.spec_constants(),
                    old(self).line_here(),
                    old(self).machine(),
                    old(self).ip as int,
                    next as int,
                ) == a.reports(final(self).machine(), final(self).pending()),
                Err(e) => value_transition(
                    op,
                    old(self).chunk.spec_constants(),
                    old(self).line_here(),
                    old(self).machine(),
                    old(self).ip as int,
                    next as int,
                ) == Transition::Fault(e.fault()),
            },
            r matches Ok(a) && !(a is Format) ==> final(self).pending == old(self).pending,
            r matches Ok(Action::Format(_)) ==> final(self).pending() == Resumption::Print,
    {
        let ghost m = self.machine();
        let n = self.stack.len();
        match op {
            OpCode::Constant(i) => match self.chunk.constant(i) {
                Ok(v) => {
                    self.push(v, next);
                    Ok(Action::Continue)
                },
                Err(e) => Err(VMError::InvalidConstant(i, e)),
            },
            OpCode::True => {
                self.push(Value::Boolean(true), next);
                Ok(Action::Continue)
            },
            OpCode::False => {
                self.push(Value::Boolean(false), next);
                Ok(Action::Continue)
            },
            OpCode::Nil => {
                self.push(Value::Nil, next);
                Ok(Action::Continue)
            },
            OpCode::Pop => {
                if n < 1 {
                    return Err(VMError::StackTooSmall(1, 0));
                }
                self.drop_top(1);
                self.ip = next;
                assert(self.machine().stack =~= m.stack.drop_last());
                Ok(Action::Continue)
            },
            OpCode::GetLocal(i) => {
                if (i as usize) < n {
                    let v = self.stack[i as usize].duplicate();
                    self.push(v, next);
                    Ok(Action::Continue)
                } else {
                    Err(self.runtime(RuntimeError::UndefinedLocal(i)))
                }
            },
            OpCode::SetLocal(i) => {
                if n < 1 {
                    return Err(VMError::StackTooSmall(1, 0));
                }
                if (i as usize) < n {
                    let v = self.stack[n - 1].duplicate();
                    let ghost before = self.stack@;
                    self.stack.set(i as usize, v);
                    self.ip = next;
                    assert(Self::model(self.stack@) =~= Self::model(before).update(
                        i as int,
                        m.stack.last(),
                    ));
                    Ok(Action::Continue)
                } else {
                    Err(self.runtime(RuntimeError::UndefinedLocal(i)))
                }
            },
            OpCode::Not => {
                if n < 1 {
                    return Err(VMError::StackTooSmall(1, 0));
                }
                let b = self.stack[n - 1].is_truthy();
                self.drop_top(1);
                assert(self.machine().stack =~= m.stack.drop_last());
                self.push(Value::Boolean(!b), next);
                Ok(Action::Continue)
            },
            OpCode::Print => {
                if n < 1 {
                    return Err(VMError::StackTooSmall(1, 0));
                }
                let v = self.stack[n - 1].duplicate();
                self.drop_top(1);
                self.ip = next;
                assert(self.machine().stack =~= m.stack.drop_last());
                match v {
                    Value::Number(k) => {
                        self.pending = Pending::Print;
                        Ok(Action::Format(k))
                    },
                    _ => Ok(Action::Print(v.text())),
                }
            },
            OpCode::Jump(o) => self.jump(o),
            OpCode::JumpIfFalse(o) => {
                if n < 1 {
                    return Err(VMError::StackTooSmall(1, 0));
                }
                if !self.stack[n - 1].is_truthy() {
                    self.jump(o)
                } else {
                    self.ip = next;
                    Ok(Action::Continue)
                }
            },
            OpCode::Return => Ok(Action::Halt),
            OpCode::Unknown(b) => Err(VMError::InvalidOpCode(b)),
            _ => self.global_step(op, next),
        }
    }

    /// Finishes an instruction whose operands were taken off the stack.
    fn finish(&mut self, v: Value, n: usize, next: usize)
        requires
            2 <= n == old(self).stack@.len(),
        ensures
            final(self).machine() == with_stack(
                old(self).machine(),
                next as int,
                old(self).machine().stack.subrange(0, n - 2).push(v@),
            ),
            final(self).chunk == old(self).chunk,
            final(self).globals == old(self).globals,
            final(self).pending == old(self).pending,
    {
        self.drop_top(2);
        self.push(v, next);
    }

    /// Takes both operands off the stack and waits for the host.
    fn suspend(&mut self, p: Pending, n: usize, next: usize)
        requires
            2 <= n == old(self).stack@.len(),
        ensures
            final(self).machine() == with_stack(
                old(self).machine(),
                next as int,
                old(self).machine().stack.subrange(0, n - 2),
            ),
            final(self).chunk == old(self).chunk,
            final(self).globals == old(self).globals,
            final(self).pending == p,
    {
        self.drop_top(2);
        self.ip = next;
        self.pending = p;
    }

    fn add_step(&mut self, next: usize) -> (r: Result<Action, VMError>)
        requires
            old(self).wf(),
        ensures
            r is Err ==> final(self).pending == old(self).pending,
            r is Err ==> final(self).machine() == old(self).machine(),
            final(self).wf(),
            final(self).chunk == old(self).chunk,
            match r {
                Ok(a) => add_transition(old(self).line_here(), old(self).machine(), next as int)
                    == a.reports(final(self).machine(), final(self).pending()),
                Err(e) => add_transition(old(self).line_here(), old(self).machine(), next as int)
                    == Transition::Fault(e.fault()),
            },
            r matches Ok(Action::Arithmetic(..)) ==> final(self).pending() == Resumption::Number,
            r matches Ok(Action::Continue) ==> final(self).pending == old(self).pending,
            r matches Ok(a) ==> !(a is Halt || a is Print),
    {
        let ghost m = self.machine();
        let n = self.stack.len();
        if n < 1 {
            return Err(VMError::StackTooSmall(1, 0));
        }
        if n < 2 {
            return Err(VMError::StackTooSmall(2, 1));
        }
        let r = self.stack[n - 1].duplicate();
        let l = self.stack[n - 2].duplicate();
        assert(l@ == m.stack[n - 2] && r@ == m.stack[n - 1]);
        if let (Value::Number(a), Value::Number(b)) = (&l, &r) {
            self.suspend(Pending::Number, n, next);
            return Ok(Action::Arithmetic(ArithOp::Add, *a, *b));
        }
        match l.as_text() {
            Some(s) => match r {
                Value::Number(b) => {
                    self.suspend(Pending::Append(s.clone()), n, next);
                    Ok(Action::Format(b))
                },
                _ => {
                    let mut c = s.clone();
                    let t = r.text();
                    c.append(t.as_str());
                    self.finish(Value::new_string(c), n, next);
                    Ok(Action::Continue)
                },
            },
            None => match r.as_text() {
                Some(s) => match l {
                    Value::Number(a) => {
                        self.suspend(Pending::Prepend(s.clone()), n, next);
                        Ok(Action::Format(a))
                    },
                    _ => {
                        let mut c = l.text();
                        c.append(s.as_str());
                        self.finish(Value::new_string(c), n, next);
                        Ok(Action::Continue)
                    },
                },
                None => Err(self.runtime(RuntimeError::InvalidAdditionArguments)),
            },
        }
    }

    fn number_step(&mut self, op: OpCode, next: usize) -> (r: Result<Action, VMError>)
        requires
            old(self).wf(),
            old(self).pending() == Resumption::Idle,
            is_number_op(op),
        ensures
            r is Err ==> final(self).pending == old(self).pending,
            r is Err ==> final(self).machine() == old(self).machine(),
            final(self).wf(),
            final(self).chunk == old(self).chunk,
            match r {
                Ok(a) => number_transition(op, old(self).line_here(), old(self).machine(), next as int)
                    == a.reports(final(self).machine(), final(self).pending()),
                Err(e) => number_transition(op, old(self).line_here(), old(self).machine(), next as int)
                    == Transition::Fault(e.fault()),
            },
            r matches Ok(Action::Arithmetic(..)) ==> final(self).pending() == Resumption::Number,
            r matches Ok(Action::Continue) ==> final(self).pending() == Resumption::Idle,
            r matches Ok(a) ==> !(a is Halt || a is Print),
    {
        let ghost m = self.machine();
        let n = self.stack.len();
        match op {
            OpCode::Equal => {
                if n < 2 {
                    return Err(VMError::StackTooSmall(1, 0));
                }
                let eq = self.stack[n - 2].is_equal(&self.stack[n - 1]);
                self.finish(Value::Boolean(eq), n, next);
                Ok(Action::Continue)
            },
            OpCode::Add => self.add_step(next),
            OpCode::Negate => {
                if n < 1 {
                    return Err(VMError::StackTooSmall(1, 0));
                }
                match self.stack[n - 1].as_number() {
                    Ok(k) => {
                        self.drop_top(1);
                        assert(self.machine().stack =~= m.stack.drop_last());
                        self.push(Value::Number(number_negate(k)), next);
                        Ok(Action::Continue)
                    },
                    Err(_) => Err(self.runtime(RuntimeError::ExpectedNumber)),
                }
            },
            _ => {
                if n < 1 {
                    return Err(VMError::StackTooSmall(1, 0));
                }
                let b = match self.stack[n - 1].as_number() {
                    Ok(b) => b,
                    Err(_) => return Err(self.runtime(RuntimeError::ExpectedNumber)),
                };
                if n < 2 {
                    return Err(VMError::StackTooSmall(2, 1));
                }
                let a = match self.stack[n - 2].as_number() {
                    Ok(a) => a,
                    Err(_) => return Err(self.runtime(RuntimeError::ExpectedNumber)),
                };
                match op {
                    OpCode::Greater => {
                        self.finish(Value::Boolean(number_less(b, a)), n, next);
                        Ok(Action::Continue)
                    },
                    OpCode::Less => {
                        self.finish(Value::Boolean(number_less(a, b)), n, next);
                        Ok(Action::Continue)
                    },
                    OpCode::Subtract => {
                        self.suspend(Pending::Number, n, next);
                        Ok(Action::Arithmetic(ArithOp::Subtract, a, b))
                    },
                    OpCode::Multiply => {
                        self.suspend(Pending::Number, n, next);
                        Ok(Action::Arithmetic(ArithOp::Multiply, a, b))
                    },
                    _ => {
                        self.suspend(Pending::Number, n, next);
                        Ok(Action::Arithmetic(ArithOp::Divide, a, b))
                    },
                }
            },
        }
    }

    /// Runs the instruction at the instruction pointer, or the part of it
    /// that the machine can do alone, and says what the host must do next.
    /// An `Arithmetic` action waits for `resume_number`, a `Format` action
    /// for `resume_text`.
    pub fn step(&mut self) -> (r: Result<Action, VMError>)
        requires
            old(self).wf(),
            old(self).pending() == Resumption::Idle,
        ensures
            r is Err ==> final(self).machine() == old(self).machine(),
            final(self).wf(),
            final(self).spec_chunk() == old(self).spec_chunk(),
            match r {
                Ok(a) => transition(old(self).spec_chunk(), old(self).machine()) == a.reports(
                    final(self).machine(),
                    final(self).pending(),
                ),
                Err(e) => transition(old(self).spec_chunk(), old(self).machine()) == Transition::Fault(
                    e.fault(),
                ),
            },
            r matches Ok(Action::Arithmetic(..)) ==> final(self).pending() == Resumption::Number,
            r matches Ok(a) && !(a is Arithmetic) && !(a is Format) ==> final(self).pending()
                == Resumption::Idle,
            r is Err ==> final(self).pending() == old(self).pending(),
    {
        let ip = self.ip;
        if ip == self.chunk.len() {
            return Ok(Action::Halt);
        }
        let (op, next) = match self.chunk.decode(ip) {
            Ok(d) => d,
            Err(e) => return Err(VMError::Decode(e)),
        };
        if is_number(op) {
            self.number_step(op, next)
        } else {
            self.value_step(op, next)
        }
    }

    /// Finishes an `Arithmetic` action: pushes the number the host computed.
    pub fn resume_number(&mut self, bits: u64)
        requires
            old(self).wf(),
            old(self).pending() == Resumption::Number,
        ensures
            final(self).wf(),
            final(self).spec_chunk() == old(self).spec_chunk(),
            final(self).pending() == Resumption::Idle,
            final(self).machine() == with_stack(
                old(self).machine(),
                old(self).machine().ip,
                old(self).machine().stack.push(Datum::Number(bits)),
            ),
    {
        let ip = self.ip;
        self.push(Value::Number(bits), ip);
        self.pending = Pending::Idle;
    }

    /// Finishes a `Format` action with the decimal text of its number: hands
    /// back the line to print, or pushes the joined string.
    pub fn resume_text(&mut self, text: String) -> (r: Action)
        requires
            old(self).wf(),
            old(self).pending() is Print || old(self).pending() is Append || old(self).pending() is Prepend,
        ensures
            final(self).wf(),
            final(self).spec_chunk() == old(self).spec_chunk(),
            final(self).pending() == Resumption::Idle,
            match old(self).pending() {
                Resumption::Print => r matches Action::Print(t) && t@ == text@ && final(self).machine()
                    == old(self).machine(),
                Resumption::Append(s) => r is Continue && final(self).machine() == with_stack(
                    old(self).machine(),
                    old(self).machine().ip,
                    old(self).machine().stack.push(Datum::Text(s + text@)),
                ),
                Resumption::Prepend(s) => r is Continue && final(self).machine() == with_stack(
                    old(self).machine(),
                    old(self).machine().ip,
                    old(self).machine().stack.push(Datum::Text(text@ + s)),
                ),
                _ => false,
            },
    {
        let ip = self.ip;
        let joined = match &self.pending {
            Pending::Append(s) => {
                let mut c = s.clone();
                c.append(text.as_str());
                Some(c)
            },
            Pending::Prepend(s) => {
                let mut c = text.clone();
                c.append(s.as_str());
                Some(c)
            },
            _ => None,
        };
        self.pending = Pending::Idle;
        match joined {
            Some(c) => {
                self.push(Value::new_string(c), ip);
                Action::Continue
            },
            None => Action::Print(text),
        }
    }

    pub fn stack_len(&self) -> (r: usize)
        ensures
            r == self.machine().stack.len(),
    {
        self.stack.len()
    }
}

} // verus!
