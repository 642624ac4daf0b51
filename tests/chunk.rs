use rlox_compiler::{Chunk, DecodeError, OpCode, Value};

#[test]
fn constant_pool_holds_255() {
    let mut chunk = Chunk::new();
    for i in 0..254u64 {
        assert_eq!(chunk.add_constant(Value::Number(i)).unwrap() as u64, i);
    }
    let last = chunk.add_constant(Value::new_string(String::from("last"))).unwrap();
    assert_eq!(last, 254);
    match chunk.constant(254).unwrap() {
        Value::Object(o) => assert!(o.is_equal(&rlox_compiler::Object::String(String::from("last")))),
        _ => panic!("expected the string"),
    }
    assert!(chunk.add_constant(Value::Nil).is_err());
}

#[test]
fn constant_out_of_range() {
    let mut chunk = Chunk::new();
    chunk.add_constant(Value::Nil).unwrap();
    assert_eq!(chunk.constant(3).unwrap_err(), "invalid constant index 3 of 1");
}

#[test]
fn line_lookup() {
    let mut chunk = Chunk::new();
    assert_eq!(chunk.line(0), 0);
    assert_eq!(chunk.line(10), 0);
    chunk.add(OpCode::Constant(0), 3);
    chunk.add(OpCode::Nil, 3);
    chunk.add(OpCode::Jump(0), 5);
    chunk.add(OpCode::Print, 9);
    assert_eq!(chunk.line(0), 3);
    assert_eq!(chunk.line(1), 3);
    assert_eq!(chunk.line(2), 3);
    assert_eq!(chunk.line(3), 5);
    assert_eq!(chunk.line(5), 5);
    assert_eq!(chunk.line(6), 9);
    assert_eq!(chunk.line(100), 9);
}

#[test]
fn add_returns_a_reference_and_patch_rewrites() {
    let mut chunk = Chunk::new();
    chunk.add(OpCode::Nil, 1);
    let placeholder = chunk.add(OpCode::Jump(0), 1);
    chunk.add(OpCode::Pop, 1);
    assert_eq!(chunk.len(), 5);
    chunk.patch(&placeholder, OpCode::JumpIfFalse(4));
    assert_eq!(chunk.as_bytes(), &[3, 21, 0, 4, 4][..]);
    let (op, next) = chunk.decode(1).unwrap();
    assert_eq!(op, OpCode::JumpIfFalse(4));
    assert_eq!(next, 4);
}

#[test]
fn chunk_decode_past_end() {
    let mut chunk = Chunk::new();
    chunk.add(OpCode::Return, 1);
    assert!(matches!(chunk.decode(1), Err(DecodeError::EOF)));
    assert!(matches!(chunk.decode(7), Err(DecodeError::EOF)));
}
