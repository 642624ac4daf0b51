use rlox_compiler::{DecodeError, OpCode};

fn all_opcodes() -> Vec<OpCode> {
    vec![
        OpCode::Constant(0),
        OpCode::Constant(255),
        OpCode::True,
        OpCode::False,
        OpCode::Nil,
        OpCode::Pop,
        OpCode::GetLocal(3),
        OpCode::SetLocal(4),
        OpCode::GetGlobal(5),
        OpCode::DefineGlobal(6),
        OpCode::SetGlobal(7),
        OpCode::Equal,
        OpCode::Greater,
        OpCode::Less,
        OpCode::Add,
        OpCode::Subtract,
        OpCode::Multiply,
        OpCode::Divide,
        OpCode::Not,
        OpCode::Negate,
        OpCode::Print,
        OpCode::Jump(0),
        OpCode::Jump(300),
        OpCode::Jump(-1),
        OpCode::Jump(i16::MIN),
        OpCode::JumpIfFalse(i16::MAX),
        OpCode::JumpIfFalse(-258),
        OpCode::Return,
        OpCode::Unknown(23),
        OpCode::Unknown(255),
    ]
}

#[test]
fn round_trip_every_opcode() {
    for op in all_opcodes() {
        let bytes = op.encode();
        assert_eq!(bytes.len(), op.byte_length());
        let (decoded, len) = OpCode::decode(&bytes).unwrap();
        assert_eq!(decoded, op);
        assert_eq!(len, op.byte_length());
    }
}

#[test]
fn round_trip_with_trailing_bytes() {
    for op in all_opcodes() {
        let mut bytes = op.encode();
        bytes.extend_from_slice(&[9, 9, 9]);
        let (decoded, len) = OpCode::decode(&bytes).unwrap();
        assert_eq!(decoded, op);
        assert_eq!(len, op.byte_length());
    }
}

#[test]
fn encode_is_bit_exact() {
    assert_eq!(OpCode::Constant(7).encode(), vec![0, 7]);
    assert_eq!(OpCode::True.encode(), vec![1]);
    assert_eq!(OpCode::Return.encode(), vec![22]);
    assert_eq!(OpCode::Jump(0x0102).encode(), vec![20, 0x01, 0x02]);
    assert_eq!(OpCode::JumpIfFalse(-2).encode(), vec![21, 0xff, 0xfe]);
    assert_eq!(OpCode::Unknown(200).encode(), vec![200]);
}

#[test]
fn byte_lengths() {
    assert_eq!(OpCode::Nil.byte_length(), 1);
    assert_eq!(OpCode::GetGlobal(1).byte_length(), 2);
    assert_eq!(OpCode::JumpIfFalse(1).byte_length(), 3);
    assert_eq!(OpCode::Unknown(99).byte_length(), 1);
}

#[test]
fn decode_empty_is_eof() {
    assert!(matches!(OpCode::decode(&[]), Err(DecodeError::EOF)));
}

#[test]
fn decode_missing_operand() {
    match OpCode::decode(&[0]) {
        Err(DecodeError::UnexpectedEOF(1, m)) => assert_eq!(m, "Missing constant index"),
        _ => panic!("expected a missing constant index"),
    }
    match OpCode::decode(&[20, 1]) {
        Err(DecodeError::UnexpectedEOF(1, m)) => assert_eq!(m, "Missing jump offset"),
        _ => panic!("expected a missing jump offset"),
    }
}

#[test]
fn decode_unknown_tag() {
    let (op, len) = OpCode::decode(&[42, 0]).unwrap();
    assert_eq!(op, OpCode::Unknown(42));
    assert_eq!(len, 1);
}

#[test]
fn unknown_with_a_known_tag_is_read_as_that_instruction() {
    let bytes = OpCode::Unknown(1).encode();
    let (op, _) = OpCode::decode(&bytes).unwrap();
    assert_eq!(op, OpCode::True);
}
