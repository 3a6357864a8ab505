use vipl_vm::checker::{checkBytecode, checkFunction, AbstractStack};
use vipl_vm::opcode::{OpCode, JmpType, SeekableOpcodes};
use vipl_vm::stdlib::bootStrapVM;
use vipl_vm::types::DataType;
use vipl_vm::vm::{VariableMetadata, VirtualMachine};

fn call(sig: &str) -> OpCode {
    OpCode::Call { encoded: sig.to_string() }
}

fn check(program: Vec<OpCode>, locals: Vec<DataType>, vm: &VirtualMachine) -> bool {
    let mut seek = SeekableOpcodes { opCodes: program, index: 0 };
    let mut locals = locals;
    let mut astack = AbstractStack { stack: Vec::new() };
    let mut checked: Vec<String> = Vec::new();
    checkBytecode(&mut seek, &mut locals, &mut astack, vm, &mut checked)
}

#[test]
fn empty_stream_is_accepted() {
    let vm = bootStrapVM();
    assert!(check(Vec::new(), Vec::new(), &vm));
}

#[test]
fn arithmetic_program_is_accepted() {
    let vm = bootStrapVM();
    let program = vec![
        OpCode::PushInt(2),
        OpCode::PushInt(3),
        OpCode::Add(DataType::Int),
        call("print(int)"),
    ];
    assert!(check(program, Vec::new(), &vm));
}

#[test]
fn unknown_function_is_rejected() {
    let vm = bootStrapVM();
    let program = vec![OpCode::PushInt(1), call("missing(int)")];
    assert!(!check(program, Vec::new(), &vm));
}

#[test]
fn pop_on_empty_stack_is_rejected() {
    let vm = bootStrapVM();
    assert!(!check(vec![OpCode::Pop], Vec::new(), &vm));
}

#[test]
fn dup_on_empty_stack_is_rejected() {
    let vm = bootStrapVM();
    assert!(!check(vec![OpCode::Dup], Vec::new(), &vm));
}

#[test]
fn set_local_out_of_range_is_rejected() {
    let vm = bootStrapVM();
    let program = vec![OpCode::PushInt(1), OpCode::SetLocal { index: 5, typ: DataType::Int }];
    assert!(!check(program, vec![DataType::Int], &vm));
}

#[test]
fn set_local_tag_mismatch_is_rejected() {
    let vm = bootStrapVM();
    let program = vec![
        OpCode::PushBool(true),
        OpCode::SetLocal { index: 0, typ: DataType::Int },
    ];
    assert!(!check(program, vec![DataType::Int], &vm));
}

#[test]
fn set_local_with_matching_tag_is_accepted() {
    let vm = bootStrapVM();
    let program = vec![OpCode::PushInt(1), OpCode::SetLocal { index: 0, typ: DataType::Int }];
    assert!(check(program, vec![DataType::Int], &vm));
}

#[test]
fn division_result_is_float_even_on_integers() {
    let vm = bootStrapVM();
    let as_float = vec![
        OpCode::PushInt(1),
        OpCode::PushInt(2),
        OpCode::Div(DataType::Int),
        call("print(float)"),
    ];
    assert!(check(as_float, Vec::new(), &vm));
    let as_int = vec![
        OpCode::PushInt(1),
        OpCode::PushInt(2),
        OpCode::Div(DataType::Int),
        call("print(int)"),
    ];
    assert!(!check(as_int, Vec::new(), &vm));
}

#[test]
fn string_scenario_is_accepted() {
    let vm = bootStrapVM();
    let program = vec![
        call("makeString()"),
        OpCode::Dup,
        OpCode::PushChar('h'),
        call("appendChar(String,char)"),
        OpCode::Dup,
        OpCode::PushChar('i'),
        call("appendChar(String,char)"),
        call("print(String)"),
    ];
    assert!(check(program, Vec::new(), &vm));
}

#[test]
fn function_block_with_declared_return_is_accepted() {
    let vm = bootStrapVM();
    let program = vec![
        OpCode::FunBegin,
        OpCode::FunName { name: "f".to_string() },
        OpCode::LocalVarTable {
            typ: vec![VariableMetadata { name: "x".to_string(), typ: DataType::Int }],
            argsCount: 1,
        },
        OpCode::FunReturn { typ: Some(DataType::Int) },
        OpCode::PushLocal { index: 0 },
        OpCode::PushInt(1),
        OpCode::Add(DataType::Int),
        OpCode::Return,
        OpCode::FunEnd,
        OpCode::PushInt(41),
        call("f(int)"),
        call("print(int)"),
    ];
    assert!(check(program, Vec::new(), &vm));
}

#[test]
fn function_block_that_returns_nothing_despite_declaration_is_rejected() {
    let vm = bootStrapVM();
    let program = vec![
        OpCode::FunBegin,
        OpCode::FunName { name: "g".to_string() },
        OpCode::LocalVarTable { typ: Vec::new(), argsCount: 0 },
        OpCode::FunReturn { typ: Some(DataType::Int) },
        OpCode::Return,
        OpCode::FunEnd,
    ];
    assert!(!check(program, Vec::new(), &vm));
}

#[test]
fn conditional_jump_pops_a_boolean() {
    let vm = bootStrapVM();
    let good = vec![
        OpCode::PushBool(true),
        OpCode::Jmp { offset: 0, jmpType: JmpType::IfTrue },
    ];
    assert!(check(good, Vec::new(), &vm));
    let bad = vec![
        OpCode::PushInt(1),
        OpCode::Jmp { offset: 0, jmpType: JmpType::IfTrue },
    ];
    assert!(!check(bad, Vec::new(), &vm));
    let empty = vec![OpCode::Jmp { offset: 0, jmpType: JmpType::IfFalse }];
    assert!(!check(empty, Vec::new(), &vm));
}

#[test]
fn counting_loop_program_is_accepted() {
    let vm = bootStrapVM();
    let program = vec![
        OpCode::Inc { typ: DataType::Int, index: 0 },
        OpCode::PushLocal { index: 1 },
        OpCode::PushLocal { index: 0 },
        OpCode::Add(DataType::Int),
        OpCode::SetLocal { index: 1, typ: DataType::Int },
        OpCode::PushLocal { index: 0 },
        OpCode::PushInt(10),
        OpCode::Less(DataType::Int),
        OpCode::Jmp { offset: -9, jmpType: JmpType::IfTrue },
        OpCode::PushLocal { index: 1 },
        call("print(int)"),
    ];
    assert!(check(program, vec![DataType::Int, DataType::Int], &vm));
}

#[test]
fn reserved_opcodes_are_rejected() {
    let vm = bootStrapVM();
    assert!(!check(vec![OpCode::ArrayLength], Vec::new(), &vm));
    assert!(!check(vec![OpCode::New { name: "P".to_string() }], Vec::new(), &vm));
}

#[test]
fn check_function_reads_the_three_meta_opcodes() {
    let vm = bootStrapVM();
    let program = vec![
        OpCode::FunName { name: "h".to_string() },
        OpCode::LocalVarTable { typ: Vec::new(), argsCount: 0 },
        OpCode::FunReturn { typ: None },
        OpCode::Return,
        OpCode::FunEnd,
    ];
    let mut seek = SeekableOpcodes { opCodes: program, index: 0 };
    let mut astack = AbstractStack { stack: Vec::new() };
    let mut checked: Vec<String> = Vec::new();
    assert!(checkFunction(&mut seek, &mut astack, &vm, &mut checked));
    assert_eq!(checked, vec!["h()".to_string()]);
}

#[test]
fn abstract_stack_operations() {
    let mut astack = AbstractStack { stack: Vec::new() };
    assert_eq!(astack.len(), 0);
    assert!(matches!(astack.pop(), None));
    astack.push(DataType::Int);
    astack.push(DataType::Bool);
    assert_eq!(astack.len(), 2);
    assert!(!astack.assertPop(&DataType::Int));
    astack.push(DataType::Bool);
    assert!(astack.assertPop(&DataType::Bool));
    assert!(matches!(astack.pop(), Some(DataType::Int)));
}
