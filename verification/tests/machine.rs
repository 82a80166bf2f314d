use strontium::machine::arith::Fault;
use strontium::machine::cancel::CancellationToken;
use strontium::machine::dispatch::DispatchPattern;
use strontium::machine::instruction::{BitwiseMethod, CalculationMethod, ComparisonMethod, Interrupt, InterruptKind};
use strontium::machine::register::{is_numbered_name, RegisterType, RegisterValue, Registers};
use strontium::machine::{Outcome, Strontium};
use strontium::types::StrontiumError;
use strontium::Instruction;

fn name_field(s: &str) -> Vec<u8> {
    let mut v = vec![s.len() as u8];
    v.extend(s.as_bytes());
    v
}

/// Load raw bytecode into both the bytecode register and the decoder.
fn load_raw(m: &mut Strontium, bytes: Vec<u8>) {
    m.push_bytecode(bytes.clone());
    m.bytecode_parser.set_bytecode(bytes);
}

/// Run until the machine stops, collecting what it asks of the embedder.
fn run(m: &mut Strontium) -> (Vec<Outcome>, Option<StrontiumError>) {
    let mut outcomes = vec![];
    m.begin_run();
    while m.should_step() {
        match m.execute() {
            Ok(o) => {
                let stop = matches!(o, Outcome::Fault(_) | Outcome::Panic { .. });
                outcomes.push(o);
                if stop {
                    break;
                }
            }
            Err(e) => return (outcomes, Some(e)),
        }
    }
    (outcomes, None)
}

#[test]
fn fresh_registers() {
    let r = Registers::new();
    assert_eq!(r.get("ip"), Some(&RegisterValue::UInt64(0)));
    assert_eq!(r.get("bc"), Some(&RegisterValue::Array(vec![])));
    assert_eq!(r.get("arg"), Some(&RegisterValue::Empty));
    assert_eq!(r.get("ret"), Some(&RegisterValue::Empty));
    for i in 1..=8 {
        assert_eq!(r.get(&format!("r{}", i)), Some(&RegisterValue::Empty));
    }
    assert_eq!(r.get("r9"), None);
}

#[test]
fn allocate_and_free_registers() {
    let mut r = Registers::new();
    // Empty registers are handed out in the byte order of their names.
    assert_eq!(r.allocate_register(), "arg");
    assert_eq!(r.get("arg"), Some(&RegisterValue::UInt64(0)));
    assert_eq!(r.allocate_register(), "r1");
    r.free_register("arg");
    assert_eq!(r.get("arg"), Some(&RegisterValue::Empty));
    assert_eq!(r.allocate_register(), "arg");
    for _ in 0..7 {
        r.allocate_register();
    }
    assert_eq!(r.allocate_register(), "ret");
    // No empty register is left: a new one is named after the number of registers.
    assert_eq!(r.allocate_register(), "r13");
    assert_eq!(r.get("r13"), Some(&RegisterValue::UInt64(0)));
}

#[test]
fn numbered_register_names() {
    assert!(is_numbered_name("r0"));
    assert!(is_numbered_name("r42"));
    assert!(is_numbered_name("r+5"));
    assert!(is_numbered_name("r007"));
    assert!(is_numbered_name("r4294967295"));
    assert!(!is_numbered_name("r4294967296"));
    assert!(!is_numbered_name("r"));
    assert!(!is_numbered_name("r+"));
    assert!(!is_numbered_name("rx"));
    assert!(!is_numbered_name("ip"));
    assert!(!is_numbered_name("arg"));
}

#[test]
fn numbered_snapshot_and_restore() {
    let mut r = Registers::new();
    r.set("r1", RegisterValue::Int64(1));
    r.set("arg", RegisterValue::Int64(9));
    let saved = r.numbered_registers();
    assert_eq!(saved.get("r1"), Some(&RegisterValue::Int64(1)));
    assert_eq!(saved.get("arg"), None);
    assert_eq!(saved.get("ip"), None);
    r.set("r1", RegisterValue::Int64(2));
    r.set("arg", RegisterValue::Int64(10));
    r.restore(&saved);
    assert_eq!(r.get("r1"), Some(&RegisterValue::Int64(1)));
    assert_eq!(r.get("arg"), Some(&RegisterValue::Int64(10)));
}

#[test]
fn load_add_halt() {
    let mut m = Strontium::new(false);
    m.push_instruction(Instruction::Load { register: "r1".to_string(), value: RegisterValue::Int64(20) });
    m.push_instruction(Instruction::Load { register: "r2".to_string(), value: RegisterValue::Int64(12) });
    m.push_instruction(Instruction::Calculate {
        method: CalculationMethod::ADD,
        operand1: "r1".to_string(),
        operand2: "r2".to_string(),
        destination: "r3".to_string(),
    });
    m.push_instruction(Instruction::Halt);
    let (outcomes, error) = run(&mut m);
    assert!(error.is_none());
    assert_eq!(outcomes.len(), 4);
    assert!(matches!(outcomes[3], Outcome::Halt));
    assert!(!m.should_continue);
    assert_eq!(m.registers.get("r3"), Some(&RegisterValue::Int64(32)));
    // The `ip` register holds the position after the last opcode byte read.
    assert!(matches!(m.registers.get("ip"), Some(RegisterValue::UInt64(_))));
}

#[test]
fn compare_and_conditional_jump() {
    let mut m = Strontium::new(false);
    m.push_instruction(Instruction::Load { register: "a".to_string(), value: RegisterValue::UInt8(3) });
    m.push_instruction(Instruction::Load { register: "b".to_string(), value: RegisterValue::UInt8(4) });
    m.push_instruction(Instruction::Compare {
        method: ComparisonMethod::GT,
        operand1: "a".to_string(),
        operand2: "b".to_string(),
        destination: "c".to_string(),
    });
    m.push_instruction(Instruction::Halt);
    let (_, error) = run(&mut m);
    assert!(error.is_none());
    assert_eq!(m.registers.get("c"), Some(&RegisterValue::Boolean(false)));

    // JUMPC jumps when the register holds `false`.
    let mut bytes = vec![];
    let jumpc = Instruction::JumpC { destination: 0, conditional_address: "c".to_string() }.to_bytes();
    let skipped = Instruction::Load { register: "d".to_string(), value: RegisterValue::UInt8(1) }.to_bytes();
    let target = (jumpc.len() + skipped.len()) as u32;
    bytes.extend(Instruction::JumpC { destination: target, conditional_address: "c".to_string() }.to_bytes());
    bytes.extend(skipped);
    bytes.extend(Instruction::Halt.to_bytes());
    m.reset();
    load_raw(&mut m, bytes);
    let (_, error) = run(&mut m);
    assert!(error.is_none());
    assert_eq!(m.registers.get("d"), None);
}

#[test]
fn call_and_return_restore_numbered_registers() {
    let load = |r: &str, v: i64| Instruction::Load { register: r.to_string(), value: RegisterValue::Int64(v) }.to_bytes();
    let mut bytes = vec![];
    bytes.extend(load("r1", 1));
    let call_at = bytes.len();
    let callee = call_at + 5 + 8;
    bytes.push(10);
    bytes.extend((callee as u32).to_le_bytes());
    bytes.extend(Instruction::Halt.to_bytes());
    assert_eq!(bytes.len(), callee);
    bytes.extend(load("r1", 2));
    bytes.extend(load("r20", 7));
    bytes.push(11);
    bytes.extend(Instruction::Halt.to_bytes());

    let mut m = Strontium::new(false);
    load_raw(&mut m, bytes);
    let (outcomes, error) = run(&mut m);
    assert!(error.is_none());
    assert!(matches!(outcomes.last(), Some(Outcome::Halt)));
    assert_eq!(m.registers.get("r1"), Some(&RegisterValue::Int64(1)));
    assert_eq!(m.registers.get("r20"), Some(&RegisterValue::Int64(7)));
    assert!(m.call_stack.is_empty());
    assert_eq!(m.bytecode_parser.index, call_at + 5);
}

#[test]
fn locals_live_in_the_current_frame() {
    let mut bytes = vec![];
    bytes.extend(Instruction::Load { register: "r1".to_string(), value: RegisterValue::Int64(5) }.to_bytes());
    let store_at = bytes.len();
    let mut store = vec![14];
    store.extend(name_field("x"));
    store.extend(name_field("r1"));
    let mut load_local = vec![15];
    load_local.extend(name_field("x"));
    load_local.extend(name_field("r2"));
    // Without a frame, storing a local is an error.
    let mut m = Strontium::new(false);
    let mut program = bytes.clone();
    program.extend(store.clone());
    program.extend(Instruction::Halt.to_bytes());
    load_raw(&mut m, program);
    let (_, error) = run(&mut m);
    assert_eq!(error, Some(StrontiumError::EmptyCallStack));
    assert_eq!(m.bytecode_parser.index, store_at + store.len());

    // Inside a call, the local is stored and read back.
    let mut program = vec![10];
    let body = 5 + 8;
    program.extend((body as u32).to_le_bytes());
    program.extend(Instruction::Halt.to_bytes());
    program.extend(bytes);
    program.extend(store);
    program.extend(load_local);
    program.extend(Instruction::Halt.to_bytes());
    let mut m = Strontium::new(false);
    load_raw(&mut m, program);
    let (_, error) = run(&mut m);
    assert!(error.is_none());
    assert_eq!(m.registers.get("r2"), Some(&RegisterValue::Int64(5)));
    assert_eq!(m.call_stack.len(), 1);
    assert_eq!(m.call_stack[0].local_variables.get("x"), Some(&RegisterValue::Int64(5)));
}

#[test]
fn dispatch_prefers_the_highest_precedence() {
    let mut m = Strontium::new(false);
    m.register_method("fib".to_string(), DispatchPattern::Any, 200);
    m.register_method("fib".to_string(), DispatchPattern::Type(RegisterType::Int64), 300);
    m.register_method("fib".to_string(), DispatchPattern::Value(RegisterValue::Int64(0)), 100);
    m.register_method("fib".to_string(), DispatchPattern::Value(RegisterValue::Int64(0)), 101);
    assert_eq!(m.dispatch("fib", &RegisterValue::Int64(0)), Some(100));
    assert_eq!(m.dispatch("fib", &RegisterValue::Int64(5)), Some(300));
    assert_eq!(m.dispatch("fib", &RegisterValue::String("x".to_string())), Some(200));
    assert_eq!(m.dispatch("fact", &RegisterValue::Int64(0)), None);
    let entries = m.multimethod_table.get("fib").unwrap();
    let addresses: Vec<usize> = entries.iter().map(|e| e.address).collect();
    assert_eq!(addresses, vec![100, 101, 300, 200]);
}

#[test]
fn dispatch_keeps_the_earliest_of_equal_precedence() {
    let mut m = Strontium::new(false);
    m.register_method("show".to_string(), DispatchPattern::Any, 7);
    m.register_method("show".to_string(), DispatchPattern::Any, 8);
    m.register_method("show".to_string(), DispatchPattern::Type(RegisterType::Int8), 9);
    m.register_method("show".to_string(), DispatchPattern::Type(RegisterType::Int8), 10);
    assert_eq!(m.dispatch("show", &RegisterValue::Boolean(true)), Some(7));
    assert_eq!(m.dispatch("show", &RegisterValue::Int8(-1)), Some(9));
}

#[test]
fn value_patterns_compare_floats_as_numbers() {
    let mut m = Strontium::new(false);
    m.register_method("sign".to_string(), DispatchPattern::Value(RegisterValue::Float64(0.0f64.to_bits())), 1);
    m.register_method("sign".to_string(), DispatchPattern::Any, 2);
    assert_eq!(m.dispatch("sign", &RegisterValue::Float64((-0.0f64).to_bits())), Some(1));
    assert_eq!(m.dispatch("sign", &RegisterValue::Float64(f64::NAN.to_bits())), Some(2));
}

#[test]
fn dispatch_instruction_calls_the_match() {
    let mut bytes = vec![16];
    bytes.extend(name_field("fib"));
    let after_dispatch = bytes.len();
    bytes.extend(Instruction::Halt.to_bytes());
    let body = bytes.len();
    bytes.extend(Instruction::Load { register: "ret".to_string(), value: RegisterValue::Int64(1) }.to_bytes());
    bytes.push(11);
    bytes.extend(Instruction::Halt.to_bytes());

    let mut m = Strontium::new(false);
    m.register_method("fib".to_string(), DispatchPattern::Value(RegisterValue::Int64(0)), body);
    load_raw(&mut m, bytes.clone());
    let (_, error) = run(&mut m);
    // `arg` starts out empty, which no variant matches.
    assert_eq!(error, Some(StrontiumError::MethodNotFound("fib".to_string())));

    m.registers.set("arg", RegisterValue::Int64(0));
    m.reset();
    load_raw(&mut m, bytes.clone());
    let (_, error) = run(&mut m);
    assert!(error.is_none());
    assert_eq!(m.registers.get("ret"), Some(&RegisterValue::Int64(1)));
    assert_eq!(m.bytecode_parser.index, after_dispatch);

    m.registers.set("arg", RegisterValue::Int64(3));
    m.reset();
    load_raw(&mut m, bytes);
    let (_, error) = run(&mut m);
    assert_eq!(error, Some(StrontiumError::MethodNotFound("fib".to_string())));
}

#[test]
fn interrupts_and_faults_go_to_the_embedder() {
    let mut m = Strontium::new(false);
    m.push_instruction(Instruction::Load { register: "r1".to_string(), value: RegisterValue::Int8(1) });
    m.push_instruction(Instruction::Interrupt {
        interrupt: Interrupt { address: "r1".to_string(), kind: InterruptKind::Print },
    });
    m.push_instruction(Instruction::Load { register: "r2".to_string(), value: RegisterValue::Int16(1) });
    m.push_instruction(Instruction::Calculate {
        method: CalculationMethod::ADD,
        operand1: "r1".to_string(),
        operand2: "r2".to_string(),
        destination: "r3".to_string(),
    });
    m.push_instruction(Instruction::Halt);
    let (outcomes, error) = run(&mut m);
    assert!(error.is_none());
    match &outcomes[1] {
        Outcome::Print { address, value } => {
            assert_eq!(address, "r1");
            assert_eq!(value, &Some(RegisterValue::Int8(1)));
        }
        _ => panic!("expected a print"),
    }
    assert!(matches!(outcomes.last(), Some(Outcome::Fault(Fault::IncompatibleTypes(CalculationMethod::ADD)))));

    let mut m = Strontium::new(false);
    m.push_instruction(Instruction::Load { register: "x".to_string(), value: RegisterValue::Float64(1.5f64.to_bits()) });
    m.push_instruction(Instruction::Calculate {
        method: CalculationMethod::MULTIPLY,
        operand1: "x".to_string(),
        operand2: "x".to_string(),
        destination: "y".to_string(),
    });
    m.push_instruction(Instruction::Halt);
    let (outcomes, _) = run(&mut m);
    match &outcomes[1] {
        Outcome::FloatCalculation { method, left, destination, .. } => {
            assert_eq!(*method, CalculationMethod::MULTIPLY);
            assert_eq!(left, &RegisterValue::Float64(1.5f64.to_bits()));
            assert_eq!(destination, "y");
        }
        _ => panic!("expected a float calculation"),
    }
}

#[test]
fn copy_move_and_load_type() {
    let mut m = Strontium::new(false);
    m.push_instruction(Instruction::Load { register: "a".to_string(), value: RegisterValue::Boolean(true) });
    m.push_instruction(Instruction::Copy { source: "a".to_string(), destination: "b".to_string() });
    m.push_instruction(Instruction::Move { source: "a".to_string(), destination: "c".to_string() });
    m.push_instruction(Instruction::Halt);
    let (_, error) = run(&mut m);
    assert!(error.is_none());
    assert_eq!(m.registers.get("a"), Some(&RegisterValue::Empty));
    assert_eq!(m.registers.get("b"), Some(&RegisterValue::Boolean(true)));
    assert_eq!(m.registers.get("c"), Some(&RegisterValue::Boolean(true)));

    let mut m = Strontium::new(false);
    m.push_instruction(Instruction::Copy { source: "nope".to_string(), destination: "b".to_string() });
    m.push_instruction(Instruction::Halt);
    let (_, error) = run(&mut m);
    assert_eq!(error, Some(StrontiumError::RegisterNotFound("nope".to_string())));
}

#[test]
fn machine_errors() {
    // Return without a frame.
    let mut m = Strontium::new(false);
    let mut bytes = vec![11];
    bytes.extend(Instruction::Halt.to_bytes());
    load_raw(&mut m, bytes);
    let (_, error) = run(&mut m);
    assert_eq!(error, Some(StrontiumError::EmptyCallStack));

    // An opcode without an executor.
    let mut m = Strontium::new(false);
    load_raw(&mut m, vec![12, 0, 0]);
    assert_eq!(m.execute(), Err(StrontiumError::IllegalOpcode(12)));

    // A program of one RETURN runs it.
    let mut m = Strontium::new(false);
    load_raw(&mut m, vec![11]);
    assert_eq!(m.execute(), Err(StrontiumError::EmptyCallStack));

    // On an empty program a step is an end-of-bytecode error, and a run takes no step.
    let mut m = Strontium::new(false);
    assert_eq!(m.execute(), Err(StrontiumError::UnexpectedEof));
    m.begin_run();
    assert!(!m.should_step());
    let (outcomes, error) = run(&mut m);
    assert!(outcomes.is_empty());
    assert!(error.is_none());

    // A decoding error.
    let mut m = Strontium::new(false);
    load_raw(&mut m, vec![7, 1, 2]);
    assert!(matches!(m.execute(), Err(StrontiumError::BytecodeError(_))));
}

#[test]
fn reset_and_abort() {
    let mut m = Strontium::new(false);
    m.push_instruction(Instruction::Halt);
    let _ = run(&mut m);
    m.abort_execution();
    assert!(!m.should_continue);
    m.reset();
    assert!(m.should_continue);
    assert_eq!(m.registers.get("bc"), Some(&RegisterValue::Array(vec![])));
    assert!(m.bytecode_parser.eof());
}

#[test]
fn interrupting_aborts_the_program() {
    let mut m = Strontium::new(false);
    m.push_instruction(Instruction::Halt);
    m.begin_run();
    assert!(m.should_continue);
    assert_eq!(m.interrupt(), StrontiumError::Interrupted);
    assert!(!m.should_continue);
    assert!(m.call_stack.is_empty());
    assert!(!m.should_step());
}

#[test]
fn consuming_reads_the_bytecode_register() {
    let mut m = Strontium::new(false);
    m.push_bytecode(vec![1, 2, 3, 4, 5, 0, 0, 0, 0]);
    assert_eq!(m.consume_u32(), Ok(0x04030201));
    assert_eq!(m.registers.get("ip"), Some(&RegisterValue::UInt64(4)));
    // The program counter does not move.
    assert_eq!(m.consume_u8(), Ok(1));
    assert_eq!(m.consume_i16(), Ok(0x0201));
    assert_eq!(m.consume_bool(), Ok(true));
    assert_eq!(m.consume_bytes(9), Ok(vec![1, 2, 3, 4, 5, 0, 0, 0, 0]));
    assert_eq!(m.consume_bytes(10), Err(StrontiumError::UnexpectedEof));

    let mut m = Strontium::new(false);
    m.push_bytecode(vec![1, 0, 0, 0, 0, 0, 0, 0]);
    assert_eq!(m.consume_u64(), Ok(1));

    let mut m = Strontium::new(false);
    m.push_bytecode(vec![2, 0, 0, 0, 104, 105, 0]);
    assert_eq!(m.consume_string(), Ok("hi".to_string()));
    assert_eq!(m.registers.get("ip"), Some(&RegisterValue::UInt64(6)));
    assert_eq!(m.bytecode_parser.index, 0);

    let mut m = Strontium::new(false);
    m.push_bytecode(vec![3, 0, 0, 0, 104, 105]);
    assert_eq!(m.consume_string(), Err(StrontiumError::UnexpectedEof));
}

#[test]
fn bitwise_instructions() {
    let load = |r: &str, v: RegisterValue| Instruction::Load { register: r.to_string(), value: v };
    let mut m = Strontium::new(false);
    m.push_instruction(load("a", RegisterValue::UInt8(12)));
    m.push_instruction(load("b", RegisterValue::UInt8(10)));
    m.push_instruction(load("t", RegisterValue::Boolean(true)));
    m.push_instruction(load("n", RegisterValue::Int16(-8)));
    m.push_instruction(Instruction::Bitwise {
        method: BitwiseMethod::AND { a: "a".to_string(), b: "b".to_string(), out: "and".to_string() },
    });
    m.push_instruction(Instruction::Bitwise {
        method: BitwiseMethod::XOR { a: "a".to_string(), b: "b".to_string(), out: "xor".to_string() },
    });
    m.push_instruction(Instruction::Bitwise {
        method: BitwiseMethod::OR { a: "t".to_string(), b: "t".to_string(), out: "or".to_string() },
    });
    m.push_instruction(Instruction::Bitwise {
        method: BitwiseMethod::LSH { a: "a".to_string(), out: "lsh".to_string(), amount: 4 },
    });
    m.push_instruction(Instruction::Bitwise {
        method: BitwiseMethod::RSH { a: "n".to_string(), out: "rsh".to_string(), amount: 2 },
    });
    m.push_instruction(Instruction::Bitwise {
        method: BitwiseMethod::LSH { a: "a".to_string(), out: "bad".to_string(), amount: 8 },
    });
    m.push_instruction(Instruction::Halt);
    let (outcomes, error) = run(&mut m);
    assert!(error.is_none());
    assert_eq!(m.registers.get("and"), Some(&RegisterValue::UInt8(8)));
    assert_eq!(m.registers.get("xor"), Some(&RegisterValue::UInt8(6)));
    assert_eq!(m.registers.get("or"), Some(&RegisterValue::Boolean(true)));
    assert_eq!(m.registers.get("lsh"), Some(&RegisterValue::UInt8(192)));
    assert_eq!(m.registers.get("rsh"), Some(&RegisterValue::Int16(-2)));
    assert!(matches!(outcomes.last(), Some(Outcome::Fault(Fault::ShiftOverflow))));

    let mut m = Strontium::new(false);
    m.push_instruction(load("a", RegisterValue::UInt8(1)));
    m.push_instruction(load("s", RegisterValue::String("x".to_string())));
    m.push_instruction(Instruction::Bitwise {
        method: BitwiseMethod::AND { a: "a".to_string(), b: "s".to_string(), out: "c".to_string() },
    });
    m.push_instruction(Instruction::Halt);
    let (outcomes, _) = run(&mut m);
    assert!(matches!(outcomes.last(), Some(Outcome::Fault(Fault::BitwiseTypes))));
}

#[test]
fn cancellation_token() {
    let token = CancellationToken::new();
    assert!(!token.is_cancelled());
    token.cancel();
    assert!(token.is_cancelled());
    assert!(token.flag().load(std::sync::atomic::Ordering::SeqCst));
    token.reset();
    assert!(!token.is_cancelled());
}
