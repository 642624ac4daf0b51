pub mod ast;
pub mod chunk;
pub mod compiler;
pub mod disasm;
pub mod op;
pub mod text;
pub mod value;
pub mod vm;

pub use chunk::{Chunk, ChunkReference};
pub use compiler::{Compiler, CompilerError, Local};
pub use disasm::{disassemble_chunk, disassemble_instruction, Piece};
pub use op::{DecodeError, OpCode};
pub use value::{Object, Value};
pub use vm::{Action, ArithOp, RuntimeError, VMError, VM};
