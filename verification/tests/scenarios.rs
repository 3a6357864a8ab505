use vipl_vm::interp::{evaluate, run, registerFunctions, RunOutcome};
use vipl_vm::opcode::{OpCode, JmpType, SeekableOpcodes};
use vipl_vm::semantics::{VmError, FloatOp};
use vipl_vm::stdlib::bootStrapVM;
use vipl_vm::types::DataType;
use vipl_vm::value::{OutItem, StackFrame, Value};
use vipl_vm::vm::VariableMetadata;

fn call(sig: &str) -> OpCode {
    OpCode::Call { encoded: sig.to_string() }
}

fn out_nums(vm: &vipl_vm::vm::VirtualMachine) -> Vec<i64> {
    vm.output
        .iter()
        .map(|o| match o {
            OutItem::Num(n) => *n,
            _ => panic!("expected integer output"),
        })
        .collect()
}

#[test]
fn empty_program_is_a_noop() {
    let mut vm = bootStrapVM();
    let r = evaluate(Vec::new(), Vec::new(), &mut vm);
    assert!(matches!(r, Ok(RunOutcome::Done)));
    assert!(vm.output.is_empty());
    assert!(vm.stack.is_empty());
}

#[test]
fn arithmetic_prints_five() {
    let mut vm = bootStrapVM();
    let program = vec![
        OpCode::PushInt(2),
        OpCode::PushInt(3),
        OpCode::Add(DataType::Int),
        call("print(int)"),
    ];
    let r = evaluate(program, Vec::new(), &mut vm);
    assert!(matches!(r, Ok(RunOutcome::Done)));
    assert_eq!(out_nums(&vm), vec![5]);
}

#[test]
fn local_round_trip_prints_42() {
    let mut vm = bootStrapVM();
    let program = vec![
        OpCode::FunBegin,
        OpCode::FunName { name: "f".to_string() },
        OpCode::LocalVarTable {
            typ: vec![VariableMetadata { name: "x".to_string(), typ: DataType::Int }],
            argsCount: 1,
        },
        OpCode::FunReturn { typ: Some(DataType::Int) },
        OpCode::PushLocal { index: 0 },
        OpCode::PushInt(1),
        OpCode::Add(DataType::Int),
        OpCode::Return,
        OpCode::FunEnd,
        OpCode::PushInt(41),
        call("f(int)"),
        call("print(int)"),
    ];
    let r = evaluate(program, Vec::new(), &mut vm);
    assert!(matches!(r, Ok(RunOutcome::Done)));
    assert_eq!(out_nums(&vm), vec![42]);
}

#[test]
fn string_append_prints_hi() {
    let mut vm = bootStrapVM();
    let program = vec![
        call("makeString()"),
        OpCode::Dup,
        OpCode::PushChar('h'),
        call("appendChar(String,char)"),
        OpCode::Dup,
        OpCode::PushChar('i'),
        call("appendChar(String,char)"),
        call("print(String)"),
    ];
    let r = evaluate(program, Vec::new(), &mut vm);
    assert!(matches!(r, Ok(RunOutcome::Done)));
    assert_eq!(vm.output.len(), 1);
    match &vm.output[0] {
        OutItem::Str { chars } => {
            let s: String = chars.iter().collect();
            assert_eq!(s, "hi");
        }
        _ => panic!("expected a string output"),
    }
}

#[test]
fn assert_pass_is_silent() {
    let mut vm = bootStrapVM();
    let program = vec![OpCode::PushInt(1), OpCode::PushInt(1), call("assert(int,int)")];
    let r = evaluate(program, Vec::new(), &mut vm);
    assert!(matches!(r, Ok(RunOutcome::Done)));
    assert!(vm.output.is_empty());
}

#[test]
fn assert_mismatch_aborts_with_both_values() {
    let mut vm = bootStrapVM();
    let program = vec![OpCode::PushInt(1), OpCode::PushInt(2), call("assert(int,int)")];
    let r = evaluate(program, Vec::new(), &mut vm);
    assert_eq!(r, Err(VmError::AssertionFailed { left: 1, right: 2 }));
}

#[test]
fn array_length_prints_three() {
    let mut vm = bootStrapVM();
    let program = vec![
        OpCode::PushInt(3),
        call("makeArray(int)"),
        call("arrayLen([Any])"),
        call("print(int)"),
    ];
    let r = evaluate(program, Vec::new(), &mut vm);
    assert!(matches!(r, Ok(RunOutcome::Done)));
    assert_eq!(out_nums(&vm), vec![3]);
}

#[test]
fn counting_loop_sums_one_to_ten() {
    let mut vm = bootStrapVM();
    let program = vec![
        OpCode::Inc { typ: DataType::Int, index: 0 },
        OpCode::PushLocal { index: 1 },
        OpCode::PushLocal { index: 0 },
        OpCode::Add(DataType::Int),
        OpCode::SetLocal { index: 1, typ: DataType::Int },
        OpCode::PushLocal { index: 0 },
        OpCode::PushInt(10),
        OpCode::Less(DataType::Int),
        OpCode::Jmp { offset: -9, jmpType: JmpType::IfTrue },
        OpCode::PushLocal { index: 1 },
        call("print(int)"),
    ];
    let r = evaluate(program, vec![DataType::Int, DataType::Int], &mut vm);
    assert!(matches!(r, Ok(RunOutcome::Done)));
    assert_eq!(out_nums(&vm), vec![55]);
}

/// Drives `run`, computing every floating-point operation the machine hands
/// out on real IEEE doubles.
fn run_with_floats(
    seek: &mut SeekableOpcodes,
    vm: &mut vipl_vm::vm::VirtualMachine,
    frames: &mut Vec<StackFrame>,
) -> Result<RunOutcome, VmError> {
    loop {
        match run(seek, vm, frames, u64::MAX)? {
            RunOutcome::Done => return Ok(RunOutcome::Done),
            RunOutcome::Exhausted => return Ok(RunOutcome::Exhausted),
            RunOutcome::NeedFloat { op, a, b } => {
                let fa = match a {
                    Value::Flo(bits) => f64::from_bits(bits),
                    Value::Num(n) => n as f64,
                    _ => panic!("bad float operand"),
                };
                let fb = match b {
                    Value::Flo(bits) => f64::from_bits(bits),
                    Value::Num(n) => n as f64,
                    _ => panic!("bad float operand"),
                };
                let res = match op {
                    FloatOp::Add => Value::Flo((fa + fb).to_bits()),
                    FloatOp::Sub => Value::Flo((fa - fb).to_bits()),
                    FloatOp::Mul => Value::Flo((fa * fb).to_bits()),
                    FloatOp::Div => Value::Flo((fa / fb).to_bits()),
                    FloatOp::Equals => Value::Bol(fa == fb),
                    FloatOp::Greater => Value::Bol(fa > fb),
                    FloatOp::Less => Value::Bol(fa < fb),
                    FloatOp::I2F => match a {
                        Value::Num(n) => Value::Flo((n as f64).to_bits()),
                        _ => panic!("bad conversion operand"),
                    },
                };
                vm.stack.push(res);
            }
        }
    }
}

#[test]
fn int_float_round_trip_returns_original() {
    let mut vm = bootStrapVM();
    let program = vec![OpCode::PushInt(41), OpCode::I2F, OpCode::F2I, call("print(int)")];
    assert!(registerFunctions(&program, &mut vm));
    let mut frames = vec![StackFrame { localVariables: Vec::new(), name: None, returnIp: 0 }];
    let mut seek = SeekableOpcodes { opCodes: program, index: 0 };
    let r = run_with_floats(&mut seek, &mut vm, &mut frames);
    assert!(matches!(r, Ok(RunOutcome::Done)));
    assert_eq!(out_nums(&vm), vec![41]);
}

#[test]
fn exact_conversion_matches_the_host() {
    let samples: Vec<i64> = vec![
        0,
        1,
        -1,
        41,
        -12345678,
        4503599627370495,
        -4503599627370495,
        1 << 52,
        -(1 << 52),
        (1 << 53) - 1,
        -((1 << 53) - 1),
    ];
    for &n in &samples {
        let mut vm = bootStrapVM();
        let program = vec![OpCode::PushInt(n), OpCode::I2F, call("print(float)")];
        let r = evaluate(program, Vec::new(), &mut vm);
        assert!(matches!(r, Ok(RunOutcome::Done)));
        match vm.output[0] {
            OutItem::Flo(bits) => assert_eq!(bits, (n as f64).to_bits(), "bits for {}", n),
            _ => panic!("expected a float output"),
        }
    }
}

#[test]
fn large_int_conversion_is_handed_to_the_host() {
    let mut vm = bootStrapVM();
    let program = vec![OpCode::PushInt(i64::MAX), OpCode::I2F, call("print(float)")];
    assert!(registerFunctions(&program, &mut vm));
    let mut frames = vec![StackFrame { localVariables: Vec::new(), name: None, returnIp: 0 }];
    let mut seek = SeekableOpcodes { opCodes: program, index: 0 };
    let r = run_with_floats(&mut seek, &mut vm, &mut frames);
    assert!(matches!(r, Ok(RunOutcome::Done)));
    match vm.output[0] {
        OutItem::Flo(bits) => assert_eq!(bits, (i64::MAX as f64).to_bits()),
        _ => panic!("expected a float output"),
    }
}

#[test]
fn truncation_after_division_drops_the_fraction() {
    let mut vm = bootStrapVM();
    let program = vec![
        OpCode::PushInt(7),
        OpCode::PushInt(2),
        OpCode::Div(DataType::Int),
        OpCode::F2I,
        call("print(int)"),
    ];
    assert!(registerFunctions(&program, &mut vm));
    let mut frames = vec![StackFrame { localVariables: Vec::new(), name: None, returnIp: 0 }];
    let mut seek = SeekableOpcodes { opCodes: program, index: 0 };
    let r = run_with_floats(&mut seek, &mut vm, &mut frames);
    assert!(matches!(r, Ok(RunOutcome::Done)));
    assert_eq!(out_nums(&vm), vec![3]);
}

#[test]
fn integer_division_yields_a_float() {
    let mut vm = bootStrapVM();
    let program = vec![
        OpCode::PushInt(7),
        OpCode::PushInt(2),
        OpCode::Div(DataType::Int),
        call("print(float)"),
    ];
    assert!(registerFunctions(&program, &mut vm));
    let mut frames = vec![StackFrame { localVariables: Vec::new(), name: None, returnIp: 0 }];
    let mut seek = SeekableOpcodes { opCodes: program, index: 0 };
    let r = run_with_floats(&mut seek, &mut vm, &mut frames);
    assert!(matches!(r, Ok(RunOutcome::Done)));
    assert_eq!(vm.output.len(), 1);
    match vm.output[0] {
        OutItem::Flo(bits) => assert_eq!(f64::from_bits(bits), 3.5),
        _ => panic!("expected a float output"),
    }
}

#[test]
fn string_natives_compose() {
    let mut vm = bootStrapVM();
    let program = vec![
        call("makeString()"),
        OpCode::Dup,
        OpCode::PushChar('a'),
        call("appendChar(String,char)"),
        OpCode::Dup,
        OpCode::PushChar('b'),
        call("appendChar(String,char)"),
        call("strLen(String)"),
        call("print(int)"),
    ];
    let r = evaluate(program, Vec::new(), &mut vm);
    assert!(matches!(r, Ok(RunOutcome::Done)));
    assert_eq!(out_nums(&vm), vec![2]);
}

#[test]
fn get_char_out_of_bounds_aborts() {
    let mut vm = bootStrapVM();
    let program = vec![
        call("makeString()"),
        OpCode::PushInt(0),
        call("getChar(String,int)"),
    ];
    let r = evaluate(program, Vec::new(), &mut vm);
    assert_eq!(r, Err(VmError::IndexOutOfBounds));
}

#[test]
fn call_leaves_exactly_one_return_value() {
    let mut vm = bootStrapVM();
    let program = vec![
        OpCode::FunBegin,
        OpCode::FunName { name: "f".to_string() },
        OpCode::LocalVarTable {
            typ: vec![VariableMetadata { name: "x".to_string(), typ: DataType::Int }],
            argsCount: 1,
        },
        OpCode::FunReturn { typ: Some(DataType::Int) },
        OpCode::PushLocal { index: 0 },
        OpCode::PushInt(1),
        OpCode::Add(DataType::Int),
        OpCode::Return,
        OpCode::FunEnd,
        OpCode::PushInt(41),
        call("f(int)"),
    ];
    let r = evaluate(program, Vec::new(), &mut vm);
    assert!(matches!(r, Ok(RunOutcome::Done)));
    assert_eq!(vm.stack, vec![Value::Num(42)]);
}

#[test]
fn dup_then_pop_is_a_noop() {
    let mut vm = bootStrapVM();
    let program = vec![
        OpCode::PushInt(5),
        OpCode::Dup,
        OpCode::Pop,
        call("print(int)"),
    ];
    let r = evaluate(program, Vec::new(), &mut vm);
    assert!(matches!(r, Ok(RunOutcome::Done)));
    assert_eq!(out_nums(&vm), vec![5]);
    assert!(vm.stack.is_empty());
}

#[test]
fn ends_with_checks_the_suffix() {
    let mut vm = bootStrapVM();
    let program = vec![
        call("makeString()"),
        OpCode::Dup,
        OpCode::PushChar('h'),
        call("appendChar(String,char)"),
        OpCode::Dup,
        OpCode::PushChar('i'),
        call("appendChar(String,char)"),
        call("makeString()"),
        OpCode::Dup,
        OpCode::PushChar('i'),
        call("appendChar(String,char)"),
        call("endsWith(String,String)"),
    ];
    let r = evaluate(program, Vec::new(), &mut vm);
    assert!(matches!(r, Ok(RunOutcome::Done)));
    assert_eq!(vm.stack, vec![Value::Bol(true)]);
}

#[test]
fn append_char_on_null_reference_aborts() {
    let mut vm = bootStrapVM();
    let program = vec![
        OpCode::FunBegin,
        OpCode::FunName { name: "g".to_string() },
        OpCode::LocalVarTable {
            typ: vec![VariableMetadata { name: "s".to_string(), typ: DataType::strType() }],
            argsCount: 0,
        },
        OpCode::FunReturn { typ: None },
        OpCode::PushLocal { index: 0 },
        OpCode::PushChar('x'),
        call("appendChar(String,char)"),
        OpCode::Return,
        OpCode::FunEnd,
        call("g()"),
    ];
    let r = evaluate(program, Vec::new(), &mut vm);
    assert_eq!(r, Err(VmError::NullReference));
}

#[test]
fn calling_an_unregistered_function_aborts() {
    let mut vm = bootStrapVM();
    let program = vec![OpCode::PushInt(1), call("missing(int)")];
    let r = evaluate(program, Vec::new(), &mut vm);
    assert_eq!(r, Err(VmError::UnknownFunction));
}
