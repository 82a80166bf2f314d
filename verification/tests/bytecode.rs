use strontium::types::program::{BytecodeError as FileError, Program as FileProgram};
use strontium::machine::bytecode::decode::BytecodeParser;
use strontium::machine::bytecode::{BytecodeError, Bytecode, Program, ProgramMetadata};
use strontium::machine::instruction::encode::{encode, Header};
use strontium::machine::instruction::{
    BitwiseMethod, CalculationMethod, ComparisonMethod, Interrupt, InterruptKind,
};
use strontium::machine::register::RegisterValue;
use strontium::Instruction;
use strontium::Opcode;

#[test]
fn transcode_halt() {
    let ins = Instruction::Halt;
    let decoded: Vec<u8> = ins.to_bytes();

    assert_eq!(decoded.len(), 8);
    let mut parser = BytecodeParser::new(decoded, false);

    assert_eq!(parser.parse_instruction().unwrap(), ins);
}

#[test]
fn transcode_load() {
    let ins = Instruction::Load {
        register: "r5".to_string(),
        value: RegisterValue::UInt64(42),
    };
    let decoded: Vec<u8> = ins.to_bytes();
    println!("Decoded: {:?}", decoded);

    let mut parser = BytecodeParser::new(decoded, false);

    assert_eq!(parser.parse_instruction().unwrap(), ins);
}

#[test]
fn transcode_move() {
    let ins = Instruction::Move {
        source: "r5".to_string(),
        destination: "r7".to_string(),
    };
    let decoded: Vec<u8> = ins.to_bytes();
    let mut parser = BytecodeParser::new(decoded, false);

    assert_eq!(parser.parse_instruction().unwrap(), ins);
}

#[test]
fn transcode_copy() {
    let ins = Instruction::Copy {
        source: "r2".to_string(),
        destination: "r9".to_string(),
    };
    let decoded: Vec<u8> = ins.to_bytes();
    let mut parser = BytecodeParser::new(decoded, false);

    assert_eq!(parser.parse_instruction().unwrap(), ins);
}

#[test]
fn transcode_push() {
    let ins = Instruction::Push {
        destination: "r9".to_string(),
        value: RegisterValue::Float32(2.2f32.to_bits()),
    };
    let decoded: Vec<u8> = ins.to_bytes();
    let mut parser = BytecodeParser::new(decoded, false);

    assert_eq!(parser.parse_instruction().unwrap(), ins);
}

#[test]
fn transcode_append() {
    let ins = Instruction::Append {
        destination: "r9".to_string(),
        value: vec![
            RegisterValue::Float32(2.2f32.to_bits()),
            RegisterValue::Float32(3.1415f32.to_bits()),
        ],
    };
    let decoded: Vec<u8> = ins.to_bytes();
    let mut parser = BytecodeParser::new(decoded, false);

    assert_eq!(parser.parse_instruction().unwrap(), ins);
}

#[test]
fn transcode_calculate() {
    let ins = Instruction::Calculate {
        method: CalculationMethod::ADD,
        operand1: "r2".to_string(),
        operand2: "r3".to_string(),
        destination: "r4".to_string(),
    };
    let decoded: Vec<u8> = ins.to_bytes();
    let mut parser = BytecodeParser::new(decoded, false);

    assert_eq!(parser.parse_instruction().unwrap(), ins);
}

#[test]
fn transcode_compare() {
    let ins = Instruction::Compare {
        method: ComparisonMethod::GT,
        operand1: "r2".to_string(),
        operand2: "r3".to_string(),
        destination: "r4".to_string(),
    };
    let decoded: Vec<u8> = ins.to_bytes();
    let mut parser = BytecodeParser::new(decoded, false);

    assert_eq!(parser.parse_instruction().unwrap(), ins);
}

#[test]
fn transcode_bitwise_and() {
    let ins = Instruction::Bitwise {
        method: BitwiseMethod::AND {
            a: "r2".to_string(),
            b: "r3".to_string(),
            out: "r4".to_string(),
        },
    };
    let decoded: Vec<u8> = ins.to_bytes();
    let mut parser = BytecodeParser::new(decoded, false);

    assert_eq!(parser.parse_instruction().unwrap(), ins);
}

#[test]
fn transcode_jump() {
    let ins = Instruction::Jump { destination: 42 };
    let decoded: Vec<u8> = ins.to_bytes();

    assert_eq!(decoded.len(), 5);
    let mut parser = BytecodeParser::new(decoded, false);

    assert_eq!(parser.parse_instruction().unwrap(), ins);
}

#[test]
fn transcode_jumpc() {
    let ins = Instruction::JumpC {
        destination: 42,
        conditional_address: "r5".to_string(),
    };
    let decoded: Vec<u8> = ins.to_bytes();

    assert_eq!(decoded.len(), 8);
    let mut parser = BytecodeParser::new(decoded, false);

    assert_eq!(parser.parse_instruction().unwrap(), ins);
}

#[test]
fn transcode_interrupt_and_a_sequence() {
    let first = Instruction::Interrupt {
        interrupt: Interrupt { address: "r1".to_string(), kind: InterruptKind::Print },
    };
    let second = Instruction::Load { register: "flag".to_string(), value: RegisterValue::Boolean(true) };
    let mut bytes = first.to_bytes();
    bytes.extend(second.to_bytes());
    let mut parser = BytecodeParser::new(bytes, false);

    assert_eq!(parser.parse_instruction().unwrap(), first);
    assert_eq!(parser.parse_instruction().unwrap(), second);
    assert!(parser.eof());
}

#[test]
fn halt_encoding_is_eight_zero_bytes() {
    assert_eq!(Instruction::Halt.to_bytes(), vec![0, 0, 0, 0, 0, 0, 0, 0]);
    assert_eq!(Instruction::Jump { destination: 0x01020304 }.to_bytes(), vec![7, 4, 3, 2, 1]);
}

#[test]
fn decoding_errors() {
    let mut empty = BytecodeParser::new(vec![], false);
    assert_eq!(empty.parse_instruction(), Err(BytecodeError::UnexpectedEof(0)));

    let mut illegal = BytecodeParser::new(vec![200], false);
    assert_eq!(illegal.parse_instruction(), Err(BytecodeError::InvalidOpcode(17)));

    let mut first_illegal = BytecodeParser::new(vec![17], false);
    assert_eq!(first_illegal.parse_instruction(), Err(BytecodeError::InvalidOpcode(17)));

    let mut bad_halt = BytecodeParser::new(vec![0, 0, 0, 1, 0, 0, 0, 0], false);
    assert_eq!(
        bad_halt.parse_instruction(),
        Err(BytecodeError::UnexpectedBytes { expected: vec![0; 7], actual: vec![0, 0, 1, 0, 0, 0, 0] })
    );

    let mut short_jump = BytecodeParser::new(vec![7, 1, 2], false);
    assert_eq!(short_jump.parse_instruction(), Err(BytecodeError::UnexpectedEof(1)));
}

#[test]
fn values_to_bytes_keeps_only_bytes() {
    let parser = BytecodeParser::new(vec![], false);
    let values = vec![RegisterValue::UInt8(4), RegisterValue::Int8(-1), RegisterValue::UInt8(9)];
    assert_eq!(parser.values_to_bytes(values), vec![4, 9]);
    assert_eq!(parser.value_to_byte(RegisterValue::UInt8(77)), 77);
}

#[test]
fn program_metadata_reads_back() {
    let program = Program {
        metadata: ProgramMetadata {
            name: "demo".to_string(),
            version: "0.9.1".to_string(),
            author: "mag".to_string(),
            description: "".to_string(),
        },
        bytecode: Bytecode { bytes: vec![11] },
    };
    let bytes = program.to_bytes();
    assert_eq!(&bytes[0..9], b"strontium");
    assert_eq!(bytes[9], 4);

    let read = Program::from_bytes(bytes);
    assert_eq!(read.metadata, program.metadata);
    // The bytecode read back starts with the metadata's bytes.
    let mut expected = program.metadata.to_bytes();
    expected.push(11);
    assert_eq!(read.bytecode.bytes, expected);
}

#[test]
fn header_and_instructions_encode_in_order() {
    let header = Header { version: "0.9".to_string(), constants: vec![vec![1, 2], vec![]] };
    let bytes = encode(header, vec![Instruction::Return, Instruction::Jump { destination: 1 }]);
    let mut expected = b"strontium".to_vec();
    expected.extend(vec![2, 2, 1, 2, 0, 11, 7, 1, 0, 0, 0]);
    assert_eq!(bytes, expected);
}

#[test]
fn signed_program_payload() {
    let bytes = FileProgram::sign(vec![1, 2, 3]);
    assert_eq!(&bytes[0..9], b"strontium");
    assert_eq!(FileProgram::signed_payload(&bytes), Ok(vec![1, 2, 3]));
    assert_eq!(FileProgram::signed_payload(b"strontiun"), Err(FileError::NoSignatureFound));
    assert_eq!(FileProgram::signed_payload(b"strontium"), Ok(vec![]));
}

#[test]
fn bytes_past_the_instruction_set_are_illegal() {
    assert_eq!(Opcode::from_byte(16), Opcode::Dispatch);
    assert_eq!(Opcode::from_byte(17), Opcode::Illegal);
    assert_eq!(Opcode::from(255u8), Opcode::Illegal);
    for b in 0u8..=16 {
        assert_eq!(Opcode::from_byte(b).to_byte(), b);
    }
}
