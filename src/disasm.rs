use crate::chunk::{line_at, Chunk};
use crate::op::{decoded, missing_operand, tag_width, DecodeError, OpCode};
use crate::text::{
    decimal, hex_prefixed, pad_left, pad_right, push_decimal, push_hex_prefixed, push_pad_left,
    push_pad_right,
};
use crate::value::{text_of, Datum, Value};
use vstd::prelude::*;

verus! {

/// A piece of a disassembly listing: text, or a number constant whose
/// decimal text the host writes in its place.
#[derive(Debug)]
pub enum Piece {
    Text(String),
    Number(u64),
}

pub enum Fragment {
    Text(Seq<char>),
    Number(u64),
}

impl View for Piece {
    type V = Fragment;

    open spec fn view(&self) -> Fragment {
        match self {
            Piece::Text(s) => Fragment::Text(s@),
            Piece::Number(n) => Fragment::Number(*n),
        }
    }
}

pub open spec fn fragments(pieces: Seq<Piece>) -> Seq<Fragment> {
    pieces.map_values(|p: Piece| p@)
}

pub open spec fn mnemonic(op: OpCode) -> Seq<char> {
    match op {
        OpCode::Constant(_) => "OP_CONSTANT"@,
        OpCode::True => "OP_TRUE"@,
        OpCode::False => "OP_FALSE"@,
        OpCode::Nil => "OP_NIL"@,
        OpCode::Pop => "OP_POP"@,
        OpCode::GetLocal(_) => "OP_GET_LOCAL"@,
        OpCode::SetLocal(_) => "OP_SET_LOCAL"@,
        OpCode::GetGlobal(_) => "OP_GET_GLOBAL"@,
        OpCode::DefineGlobal(_) => "OP_DEFINE_GLOBAL"@,
        OpCode::SetGlobal(_) => "OP_SET_GLOBAL"@,
        OpCode::Equal => "OP_EQUAL"@,
        OpCode::Greater => "OP_GREATER"@,
        OpCode::Less => "OP_LESS"@,
        OpCode::Add => "OP_ADD"@,
        OpCode::Subtract => "OP_SUBTRACT"@,
        OpCode::Multiply => "OP_MULTIPLY"@,
        OpCode::Divide => "OP_DIVIDE"@,
        OpCode::Not => "OP_NOT"@,
        OpCode::Negate => "OP_NEGATE"@,
        OpCode::Print => "OP_PRINT"@,
        OpCode::Jump(_) => "OP_JUMP"@,
        OpCode::JumpIfFalse(_) => "OP_JUMP_IF_FALSE"@,
        OpCode::Return => "OP_RETURN"@,
        OpCode::Unknown(_) => "Unknown opcode"@,
    }
}

/// A jump displacement as `+0x..` or `-0x..`, at least two hex digits.
pub open spec fn jump_offset_text(offset: i16) -> Seq<char> {
    if offset >= 0 {
        "+"@ + hex_prefixed(offset as nat, 2)
    } else {
        "-"@ + hex_prefixed((0 - offset) as nat, 2)
    }
}

/// Where a jump by `offset` from `base` lands, held within `0..=usize::MAX`.
pub open spec fn jump_target(base: int, offset: i16) -> nat {
    let t = base + offset;
    if t < 0 {
        0
    } else if t > usize::MAX {
        usize::MAX as nat
    } else {
        t as nat
    }
}

/// The offset and the line of an instruction, the line replaced by `|` when
/// it is the line of the byte before.
pub open spec fn header(c: Chunk, offset: int) -> Seq<char> {
    let line = line_at(c.spec_lines(), offset);
    hex_prefixed(offset as nat, 4) + " "@ + if offset > 0 && line == line_at(
        c.spec_lines(),
        offset - 1,
    ) {
        "   | "@
    } else {
        pad_left(decimal(line as nat), 4, " "@) + " "@
    }
}

/// An instruction with a one-byte operand, shown with the pool entry at
/// that index.
pub open spec fn operand_listing(c: Chunk, op: OpCode, i: u8) -> Seq<Fragment> {
    let consts = c.spec_constants();
    let value = if i < consts.len() {
        match consts[i as int] {
            Datum::Number(b) => Fragment::Number(b),
            d => Fragment::Text(text_of(d)),
        }
    } else {
        Fragment::Text("invalid constant index "@ + decimal(i as nat) + " of "@ + decimal(consts.len()))
    };
    seq![
        Fragment::Text(pad_right(mnemonic(op), 16) + " "@ + decimal(i as nat) + " '"@),
        value,
        Fragment::Text("'\n"@),
    ]
}

pub open spec fn body(c: Chunk, offset: int, op: OpCode) -> Seq<Fragment> {
    match op {
        OpCode::Constant(i) => operand_listing(c, op, i),
        OpCode::GetLocal(i) => operand_listing(c, op, i),
        OpCode::SetLocal(i) => operand_listing(c, op, i),
        OpCode::GetGlobal(i) => operand_listing(c, op, i),
        OpCode::DefineGlobal(i) => operand_listing(c, op, i),
        OpCode::SetGlobal(i) => operand_listing(c, op, i),
        OpCode::Jump(o) => seq![Fragment::Text(jump_text(op, offset, o))],
        OpCode::JumpIfFalse(o) => seq![Fragment::Text(jump_text(op, offset, o))],
        OpCode::Unknown(b) => seq![Fragment::Text(mnemonic(op) + " "@ + decimal(b as nat) + "\n"@)],
        _ => seq![Fragment::Text(mnemonic(op) + "\n"@)],
    }
}

pub open spec fn jump_text(op: OpCode, offset: int, o: i16) -> Seq<char> {
    mnemonic(op) + " "@ + jump_offset_text(o) + " -> "@ + hex_prefixed(jump_target(offset, o), 4)
        + "\n"@
}

/// The listing of the instruction at `offset` and the offset after it;
/// `None` at or past the end of the code. An instruction cut short is
/// reported and skipped one byte at a time.
pub open spec fn instruction_listing(c: Chunk, offset: int) -> Option<(Seq<Fragment>, int)> {
    let code = c.spec_code();
    if offset >= code.len() {
        None
    } else if offset + tag_width(code[offset]) > code.len() {
        Some(
            (
                seq![
                    Fragment::Text(header(c, offset)),
                    Fragment::Text(
                        "Error decoding instruction UnexpectedEOF("@ + decimal(1) + ", \""@
                            + missing_operand(code[offset]) + "\")\n"@,
                    ),
                ],
                offset + 1,
            ),
        )
    } else {
        Some(
            (
                seq![Fragment::Text(header(c, offset))] + body(
                    c,
                    offset,
                    decoded(code.subrange(offset, code.len() as int)),
                ),
                offset + tag_width(code[offset]),
            ),
        )
    }
}

/// The listing of every instruction from `offset` to the end.
pub open spec fn listing(c: Chunk, offset: int) -> Seq<Fragment>
    decreases c.spec_code().len() - offset,
{
    match instruction_listing(c, offset) {
        None => Seq::empty(),
        Some((p, next)) => if offset < next <= c.spec_code().len() {
            p + listing(c, next)
        } else {
            p
        },
    }
}

fn mnemonic_str(op: OpCode) -> (r: &'static str)
    ensures
        r@ == mnemonic(op),
{
    match op {
        OpCode::Constant(_) => "OP_CONSTANT",
        OpCode::True => "OP_TRUE",
        OpCode::False => "OP_FALSE",
        OpCode::Nil => "OP_NIL",
        OpCode::Pop => "OP_POP",
        OpCode::GetLocal(_) => "OP_GET_LOCAL",
        OpCode::SetLocal(_) => "OP_SET_LOCAL",
        OpCode::GetGlobal(_) => "OP_GET_GLOBAL",
        OpCode::DefineGlobal(_) => "OP_DEFINE_GLOBAL",
        OpCode::SetGlobal(_) => "OP_SET_GLOBAL",
        OpCode::Equal => "OP_EQUAL",
        OpCode::Greater => "OP_GREATER",
        OpCode::Less => "OP_LESS",
        OpCode::Add => "OP_ADD",
        OpCode::Subtract => "OP_SUBTRACT",
        OpCode::Multiply => "OP_MULTIPLY",
        OpCode::Divide => "OP_DIVIDE",
        OpCode::Not => "OP_NOT",
        OpCode::Negate => "OP_NEGATE",
        OpCode::Print => "OP_PRINT",
        OpCode::Jump(_) => "OP_JUMP",
        OpCode::JumpIfFalse(_) => "OP_JUMP_IF_FALSE",
        OpCode::Return => "OP_RETURN",
        OpCode::Unknown(_) => "Unknown opcode",
    }
}

/// A jump displacement as `+0x..` or `-0x..`.
pub fn display_jump_offset(offset: i16) -> (r: String)
    ensures
        r@ == jump_offset_text(offset),
{
    let mut r = String::new();
    if offset >= 0 {
        r.append("+");
        push_hex_prefixed(&mut r, offset as u64, 2);
    } else {
        r.append("-");
        push_hex_prefixed(&mut r, (0 - offset as i32) as u64, 2);
    }
    assert(r@ =~= jump_offset_text(offset));
    r
}

/// Where a jump by `offset` from `base` lands, held within the range of
/// `usize`.
pub fn calculate_jump_target(base: usize, offset: i16) -> (r: usize)
    ensures
        r == jump_target(base as int, offset),
{
    if offset >= 0 {
        let d = offset as usize;
        if base <= usize::MAX - d {
            base + d
        } else {
            usize::MAX
        }
    } else {
        let d = (0 - offset as i32) as usize;
        if d <= base {
            base - d
        } else {
            0
        }
    }
}

fn write_instruction_header(chunk: &Chunk, offset: usize) -> (r: String)
    ensures
        r@ == header(*chunk, offset as int),
{
    let mut r = String::new();
    push_hex_prefixed(&mut r, offset as u64, 4);
    r.append(" ");
    let line = chunk.line(offset);
    if offset > 0 && line == chunk.line(offset - 1) {
        r.append("   | ");
    } else {
        let mut number = String::new();
        push_decimal(&mut number, line as u64);
        push_pad_left(&mut r, number.as_str(), 4, " ");
        r.append(" ");
    }
    assert(r@ =~= header(*chunk, offset as int));
    r
}

fn push_piece(out: &mut Vec<Piece>, p: Piece)
    ensures
        fragments(final(out)@) == fragments(old(out)@).push(p@),
{
    let ghost before = out@;
    out.push(p);
    assert(fragments(out@) =~= fragments(before).push(p@));
}

fn write_operand_op(out: &mut Vec<Piece>, chunk: &Chunk, op: OpCode, index: u8)
    ensures
        fragments(final(out)@) == fragments(old(out)@) + operand_listing(*chunk, op, index),
{
    let mut head = String::new();
    push_pad_right(&mut head, mnemonic_str(op), 16);
    head.append(" ");
    push_decimal(&mut head, index as u64);
    head.append(" '");
    push_piece(out, Piece::Text(head));
    match chunk.constant(index) {
        Ok(v) => match v {
            Value::Number(b) => push_piece(out, Piece::Number(b)),
            _ => push_piece(out, Piece::Text(v.text())),
        },
        Err(e) => push_piece(out, Piece::Text(e)),
    }
    push_piece(out, Piece::Text(String::from_str("'\n")));
    assert(fragments(final(out)@) =~= fragments(old(out)@) + operand_listing(*chunk, op, index));
}

fn write_jump_op(out: &mut Vec<Piece>, op: OpCode, at: usize, jump_offset: i16)
    ensures
        fragments(final(out)@) == fragments(old(out)@).push(
            Fragment::Text(jump_text(op, at as int, jump_offset)),
        ),
{
    let mut t = String::from_str(mnemonic_str(op));
    t.append(" ");
    let shown = display_jump_offset(jump_offset);
    t.append(shown.as_str());
    t.append(" -> ");
    push_hex_prefixed(&mut t, calculate_jump_target(at, jump_offset) as u64, 4);
    t.append("\n");
    assert(t@ =~= jump_text(op, at as int, jump_offset));
    push_piece(out, Piece::Text(t));
}

/// Appends the listing of the instruction at `offset` to `out` and returns
/// the offset after it; `None`, appending nothing, at or past the end.
pub fn disassemble_instruction(out: &mut Vec<Piece>, chunk: &Chunk, offset: usize) -> (r: Option<usize>)
    ensures
        match instruction_listing(*chunk, offset as int) {
            None => r is None && fragments(final(out)@) == fragments(old(out)@),
            Some((p, next)) => r == Some(next as usize) && fragments(final(out)@) == fragments(
                old(out)@,
            ) + p,
        },
{
    if offset >= chunk.len() {
        return None;
    }
    match chunk.decode(offset) {
        Ok((op, next_offset)) => {
            push_piece(out, Piece::Text(write_instruction_header(chunk, offset)));
            match op {
                OpCode::Constant(i) => write_operand_op(out, chunk, op, i),
                OpCode::GetLocal(i) => write_operand_op(out, chunk, op, i),
                OpCode::SetLocal(i) => write_operand_op(out, chunk, op, i),
                OpCode::GetGlobal(i) => write_operand_op(out, chunk, op, i),
                OpCode::DefineGlobal(i) => write_operand_op(out, chunk, op, i),
                OpCode::SetGlobal(i) => write_operand_op(out, chunk, op, i),
                OpCode::Jump(o) => write_jump_op(out, op, offset, o),
                OpCode::JumpIfFalse(o) => write_jump_op(out, op, offset, o),
                OpCode::Unknown(b) => {
                    let mut t = String::from_str(mnemonic_str(op));
                    t.append(" ");
                    push_decimal(&mut t, b as u64);
                    t.append("\n");
                    push_piece(out, Piece::Text(t));
                },
                _ => {
                    let mut t = String::from_str(mnemonic_str(op));
                    t.append("\n");
                    push_piece(out, Piece::Text(t));
                },
            }
            assert(fragments(out@) =~= fragments(old(out)@) + seq![Fragment::Text(header(*chunk, offset as int))] + body(*chunk, offset as int, op));
            Some(next_offset)
        },
        Err(DecodeError::EOF) => None,
        Err(DecodeError::UnexpectedEOF(n, m)) => {
            push_piece(out, Piece::Text(write_instruction_header(chunk, offset)));
            let mut t = String::from_str("Error decoding instruction UnexpectedEOF(");
            push_decimal(&mut t, n as u64);
            t.append(", \"");
            t.append(m.as_str());
            t.append("\")\n");
            push_piece(out, Piece::Text(t));
            Some(offset + 1)
        },
    }
}

/// Appends the listing of the whole chunk to `out`.
pub fn disassemble_chunk(out: &mut Vec<Piece>, chunk: &Chunk)
    ensures
        fragments(final(out)@) == fragments(old(out)@) + listing(*chunk, 0),
{
    let mut offset: usize = 0;
    let len = chunk.len();
    let ghost start = fragments(out@);
    assert(start =~= start + Seq::<Fragment>::empty());
    loop
        invariant
            offset <= chunk.spec_code().len(),
            len == chunk.spec_code().len(),
            start == fragments(old(out)@),
            start + listing(*chunk, 0) == fragments(out@) + listing(*chunk, offset as int),
        decreases chunk.spec_code().len() - offset,
    {
        let ghost before = fragments(out@);
        match disassemble_instruction(out, chunk, offset) {
            Some(next) => {
                assert(before + listing(*chunk, offset as int) =~= fragments(out@) + listing(
                    *chunk,
                    next as int,
                ));
                offset = next;
            },
            None => {
                assert(listing(*chunk, offset as int) =~= Seq::<Fragment>::empty());
                assert(fragments(out@) + Seq::<Fragment>::empty() =~= fragments(out@));
                return;
            },
        }
    }
}

} // verus!
