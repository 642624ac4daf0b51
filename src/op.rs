use vstd::prelude::*;

verus! {

pub const OP_CONSTANT: u8 = 0;
pub const OP_TRUE: u8 = 1;
pub const OP_FALSE: u8 = 2;
pub const OP_NIL: u8 = 3;
pub const OP_POP: u8 = 4;
pub const OP_GET_LOCAL: u8 = 5;
pub const OP_SET_LOCAL: u8 = 6;
pub const OP_GET_GLOBAL: u8 = 7;
pub const OP_DEFINE_GLOBAL: u8 = 8;
pub const OP_SET_GLOBAL: u8 = 9;
pub const OP_EQUAL: u8 = 10;
pub const OP_GREATER: u8 = 11;
pub const OP_LESS: u8 = 12;
pub const OP_ADD: u8 = 13;
pub const OP_SUBTRACT: u8 = 14;
pub const OP_MULTIPLY: u8 = 15;
pub const OP_DIVIDE: u8 = 16;
pub const OP_NOT: u8 = 17;
pub const OP_NEGATE: u8 = 18;
pub const OP_PRINT: u8 = 19;
pub const OP_JUMP: u8 = 20;
pub const OP_JUMP_IF_FALSE: u8 = 21;
pub const OP_RETURN: u8 = 22;

/// One instruction of the virtual machine. The tag byte of each variant is its
/// position in this list; `Unknown` carries any tag byte outside of it.
#[derive(Clone, Copy, Debug, PartialEq, Eq, Structural)]
pub enum OpCode {
    Constant(u8),
    True,
    False,
    Nil,
    Pop,
    GetLocal(u8),
    SetLocal(u8),
    GetGlobal(u8),
    DefineGlobal(u8),
    SetGlobal(u8),
    Equal,
    Greater,
    Less,
    Add,
    Subtract,
    Multiply,
    Divide,
    Not,
    Negate,
    Print,
    Jump(i16),
    JumpIfFalse(i16),
    Return,
    Unknown(u8),
}

#[derive(Debug)]
pub enum DecodeError {
    /// No byte is left at all.
    EOF,
    /// The tag byte is there but an operand byte is missing.
    UnexpectedEOF(usize, String),
}

/// Number of bytes of an instruction whose tag byte is `tag`.
pub open spec fn tag_width(tag: u8) -> nat {
    if tag == OP_CONSTANT || (OP_GET_LOCAL <= tag && tag <= OP_SET_GLOBAL) {
        2
    } else if tag == OP_JUMP || tag == OP_JUMP_IF_FALSE {
        3
    } else {
        1
    }
}

/// The message of the `UnexpectedEOF` that a cut-short instruction with tag
/// `tag` gives.
pub open spec fn missing_operand(tag: u8) -> Seq<char> {
    if tag_width(tag) == 3 {
        "Missing jump offset"@
    } else {
        "Missing constant index"@
    }
}

/// The high byte of a jump displacement, in big-endian order.
pub open spec fn hi_byte(offset: i16) -> u8 {
    ((offset as u16) >> 8u16) as u8
}

/// The low byte of a jump displacement, in big-endian order.
pub open spec fn lo_byte(offset: i16) -> u8 {
    (offset as u16) as u8
}

/// The signed 16-bit number whose big-endian bytes are `hi`, `lo`.
pub open spec fn be_i16(hi: u8, lo: u8) -> i16 {
    (((hi as u16) << 8u16) | (lo as u16)) as i16
}

/// The instruction that a byte sequence starts with, given that it holds at
/// least `tag_width(bytes[0])` bytes.
pub open spec fn decoded(bytes: Seq<u8>) -> OpCode {
    let t = bytes[0];
    if t == OP_CONSTANT {
        OpCode::Constant(bytes[1])
    } else if t == OP_TRUE {
        OpCode::True
    } else if t == OP_FALSE {
        OpCode::False
    } else if t == OP_NIL {
        OpCode::Nil
    } else if t == OP_POP {
        OpCode::Pop
    } else if t == OP_GET_LOCAL {
        OpCode::GetLocal(bytes[1])
    } else if t == OP_SET_LOCAL {
        OpCode::SetLocal(bytes[1])
    } else if t == OP_GET_GLOBAL {
        OpCode::GetGlobal(bytes[1])
    } else if t == OP_DEFINE_GLOBAL {
        OpCode::DefineGlobal(bytes[1])
    } else if t == OP_SET_GLOBAL {
        OpCode::SetGlobal(bytes[1])
    } else if t == OP_EQUAL {
        OpCode::Equal
    } else if t == OP_GREATER {
        OpCode::Greater
    } else if t == OP_LESS {
        OpCode::Less
    } else if t == OP_ADD {
        OpCode::Add
    } else if t == OP_SUBTRACT {
        OpCode::Subtract
    } else if t == OP_MULTIPLY {
        OpCode::Multiply
    } else if t == OP_DIVIDE {
        OpCode::Divide
    } else if t == OP_NOT {
        OpCode::Not
    } else if t == OP_NEGATE {
        OpCode::Negate
    } else if t == OP_PRINT {
        OpCode::Print
    } else if t == OP_JUMP {
        OpCode::Jump(be_i16(bytes[1], bytes[2]))
    } else if t == OP_JUMP_IF_FALSE {
        OpCode::JumpIfFalse(be_i16(bytes[1], bytes[2]))
    } else if t == OP_RETURN {
        OpCode::Return
    } else {
        OpCode::Unknown(t)
    }
}

impl OpCode {
    /// An `Unknown` instruction only stands for a tag byte that no other
    /// instruction uses.
    pub open spec fn well_formed(self) -> bool {
        match self {
            OpCode::Unknown(b) => b > OP_RETURN,
            _ => true,
        }
    }

    pub open spec fn spec_byte_length(self) -> nat {
        match self {
            OpCode::Constant(_) => 2,
            OpCode::GetLocal(_) => 2,
            OpCode::SetLocal(_) => 2,
            OpCode::GetGlobal(_) => 2,
            OpCode::DefineGlobal(_) => 2,
            OpCode::SetGlobal(_) => 2,
            OpCode::Jump(_) => 3,
            OpCode::JumpIfFalse(_) => 3,
            _ => 1,
        }
    }

    /// The bytes of the instruction: its tag, then its operand, if any.
    pub open spec fn spec_encode(self) -> Seq<u8> {
        match self {
            OpCode::Constant(i) => seq![OP_CONSTANT, i],
            OpCode::True => seq![OP_TRUE],
            OpCode::False => seq![OP_FALSE],
            OpCode::Nil => seq![OP_NIL],
            OpCode::Pop => seq![OP_POP],
            OpCode::GetLocal(i) => seq![OP_GET_LOCAL, i],
            OpCode::SetLocal(i) => seq![OP_SET_LOCAL, i],
            OpCode::GetGlobal(i) => seq![OP_GET_GLOBAL, i],
            OpCode::DefineGlobal(i) => seq![OP_DEFINE_GLOBAL, i],
            OpCode::SetGlobal(i) => seq![OP_SET_GLOBAL, i],
            OpCode::Equal => seq![OP_EQUAL],
            OpCode::Greater => seq![OP_GREATER],
            OpCode::Less => seq![OP_LESS],
            OpCode::Add => seq![OP_ADD],
            OpCode::Subtract => seq![OP_SUBTRACT],
            OpCode::Multiply => seq![OP_MULTIPLY],
            OpCode::Divide => seq![OP_DIVIDE],
            OpCode::Not => seq![OP_NOT],
            OpCode::Negate => seq![OP_NEGATE],
            OpCode::Print => seq![OP_PRINT],
            OpCode::Jump(o) => seq![OP_JUMP, hi_byte(o), lo_byte(o)],
            OpCode::JumpIfFalse(o) => seq![OP_JUMP_IF_FALSE, hi_byte(o), lo_byte(o)],
            OpCode::Return => seq![OP_RETURN],
            OpCode::Unknown(b) => seq![b],
        }
    }

    pub fn byte_length(&self) -> (r: usize)
        ensures
            r == self.spec_byte_length(),
    {
        match self {
            OpCode::Constant(_) => 2,
            OpCode::GetLocal(_) => 2,
            OpCode::SetLocal(_) => 2,
            OpCode::GetGlobal(_) => 2,
            OpCode::DefineGlobal(_) => 2,
            OpCode::SetGlobal(_) => 2,
            OpCode::Jump(_) => 3,
            OpCode::JumpIfFalse(_) => 3,
            _ => 1,
        }
    }
    /// The bytes of the instruction, as `spec_encode` gives them.
    pub fn encode(&self) -> (r: Vec<u8>)
        ensures
            r@ == self.spec_encode(),
    {
        let r = match *self {
            OpCode::Constant(i) => vec![OP_CONSTANT, i],
            OpCode::True => vec![OP_TRUE],
            OpCode::False => vec![OP_FALSE],
            OpCode::Nil => vec![OP_NIL],
            OpCode::Pop => vec![OP_POP],
            OpCode::GetLocal(i) => vec![OP_GET_LOCAL, i],
            OpCode::SetLocal(i) => vec![OP_SET_LOCAL, i],
            OpCode::GetGlobal(i) => vec![OP_GET_GLOBAL, i],
            OpCode::DefineGlobal(i) => vec![OP_DEFINE_GLOBAL, i],
            OpCode::SetGlobal(i) => vec![OP_SET_GLOBAL, i],
            OpCode::Equal => vec![OP_EQUAL],
            OpCode::Greater => vec![OP_GREATER],
            OpCode::Less => vec![OP_LESS],
            OpCode::Add => vec![OP_ADD],
            OpCode::Subtract => vec![OP_SUBTRACT],
            OpCode::Multiply => vec![OP_MULTIPLY],
            OpCode::Divide => vec![OP_DIVIDE],
            OpCode::Not => vec![OP_NOT],
            OpCode::Negate => vec![OP_NEGATE],
            OpCode::Print => vec![OP_PRINT],
            OpCode::Jump(o) => {
                let u = o as u16;
                vec![OP_JUMP, (u >> 8u16) as u8, u as u8]
            },
            OpCode::JumpIfFalse(o) => {
                let u = o as u16;
                vec![OP_JUMP_IF_FALSE, (u >> 8u16) as u8, u as u8]
            },
            OpCode::Return => vec![OP_RETURN],
            OpCode::Unknown(b) => vec![b],
        };
        assert(r@ =~= self.spec_encode());
        r
    }

    /// Reads the instruction at the start of `bytes`: it and the number of
    /// bytes it takes; `EOF` when `bytes` is empty, `UnexpectedEOF` when the
    /// tag is there and its operand is cut short.
    pub fn decode(bytes: &[u8]) -> (r: Result<(OpCode, usize), DecodeError>)
        ensures
            bytes@.len() == 0 ==> r matches Err(DecodeError::EOF),
            0 < bytes@.len() < tag_width(bytes@[0]) ==> (r matches Err(
                DecodeError::UnexpectedEOF(n, m),
            ) && n == 1 && m@ == missing_operand(bytes@[0])),
            0 < bytes@.len() && tag_width(bytes@[0]) <= bytes@.len() ==> (r matches Ok((op, n)) && op
                == decoded(bytes@) && n == tag_width(bytes@[0])),
    {
        if bytes.len() == 0 {
            return Err(DecodeError::EOF);
        }
        let t = bytes[0];
        if t == OP_CONSTANT || (OP_GET_LOCAL <= t && t <= OP_SET_GLOBAL) {
            if bytes.len() < 2 {
                return Err(DecodeError::UnexpectedEOF(1, String::from_str("Missing constant index")));
            }
            let i = bytes[1];
            let op = if t == OP_CONSTANT {
                OpCode::Constant(i)
            } else if t == OP_GET_LOCAL {
                OpCode::GetLocal(i)
            } else if t == OP_SET_LOCAL {
                OpCode::SetLocal(i)
            } else if t == OP_GET_GLOBAL {
                OpCode::GetGlobal(i)
            } else if t == OP_DEFINE_GLOBAL {
                OpCode::DefineGlobal(i)
            } else {
                OpCode::SetGlobal(i)
            };
            Ok((op, 2))
        } else if t == OP_JUMP || t == OP_JUMP_IF_FALSE {
            if bytes.len() < 3 {
                return Err(DecodeError::UnexpectedEOF(1, String::from_str("Missing jump offset")));
            }
            let offset = (((bytes[1] as u16) << 8u16) | (bytes[2] as u16)) as i16;
            if t == OP_JUMP {
                Ok((OpCode::Jump(offset), 3))
            } else {
                Ok((OpCode::JumpIfFalse(offset), 3))
            }
        } else {
            let op = if t == OP_TRUE {
                OpCode::True
            } else if t == OP_FALSE {
                OpCode::False
            } else if t == OP_NIL {
                OpCode::Nil
            } else if t == OP_POP {
                OpCode::Pop
            } else if t == OP_EQUAL {
                OpCode::Equal
            } else if t == OP_GREATER {
                OpCode::Greater
            } else if t == OP_LESS {
                OpCode::Less
            } else if t == OP_ADD {
                OpCode::Add
            } else if t == OP_SUBTRACT {
                OpCode::Subtract
            } else if t == OP_MULTIPLY {
                OpCode::Multiply
            } else if t == OP_DIVIDE {
                OpCode::Divide
            } else if t == OP_NOT {
                OpCode::Not
            } else if t == OP_NEGATE {
                OpCode::Negate
            } else if t == OP_PRINT {
                OpCode::Print
            } else if t == OP_RETURN {
                OpCode::Return
            } else {
                OpCode::Unknown(t)
            };
            Ok((op, 1))
        }
    }
}

proof fn lemma_jump_bytes(o: i16)
    ensures
        be_i16(hi_byte(o), lo_byte(o)) == o,
{
    assert((((((o as u16) >> 8u16) as u8 as u16) << 8u16) | (((o as u16) as u8) as u16)) as i16
        == o) by (bit_vector);
}

/// Decoding what `encode` wrote gives back the instruction, and takes exactly
/// its byte length, whatever bytes follow it.
pub proof fn lemma_round_trip(op: OpCode, rest: Seq<u8>)
    requires
        op.well_formed(),
    ensures
        op.spec_encode().len() == op.spec_byte_length(),
        tag_width((op.spec_encode() + rest)[0]) == op.spec_byte_length(),
        decoded(op.spec_encode() + rest) == op,
{
    let e = op.spec_encode() + rest;
    assert(e[0] == op.spec_encode()[0]);
    if op.spec_byte_length() >= 2 {
        assert(e[1] == op.spec_encode()[1]);
    }
    if op.spec_byte_length() == 3 {
        assert(e[2] == op.spec_encode()[2]);
    }
    match op {
        OpCode::Jump(o) => lemma_jump_bytes(o),
        OpCode::JumpIfFalse(o) => lemma_jump_bytes(o),
        _ => {},
    }
}

} // verus!
