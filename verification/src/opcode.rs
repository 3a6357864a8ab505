//! The bytecode instruction set and the cursor over an instruction stream.
use vstd::prelude::*;
use crate::types::DataType;
use crate::vm::VariableMetadata;

verus! {

/// The kind of a jump: unconditional, or conditional on the popped boolean.
#[derive(Clone, Copy, Debug, PartialEq, Eq, Structural)]
pub enum JmpType {
    Unconditional,
    IfTrue,
    IfFalse,
}

/// One atomic unit of the bytecode. Positions are indices into the stream.
///
/// A float constant is carried as its IEEE-754 bit pattern, so that the
/// instruction stream itself stays within plain integer data.
#[derive(Debug)]
pub enum OpCode {
    FunBegin,
    FunName { name: String },
    LocalVarTable { typ: Vec<VariableMetadata>, argsCount: usize },
    FunReturn { typ: Option<DataType> },
    FunEnd,
    F2I,
    I2F,
    PushInt(i64),
    PushFloat(u64),
    PushBool(bool),
    PushChar(char),
    Pop,
    Dup,
    PushLocal { index: usize },
    SetLocal { index: usize, typ: DataType },
    Inc { typ: DataType, index: usize },
    Dec { typ: DataType, index: usize },
    Jmp { offset: isize, jmpType: JmpType },
    Call { encoded: String },
    Return,
    Add(DataType),
    Sub(DataType),
    Mul(DataType),
    Div(DataType),
    Equals(DataType),
    Greater(DataType),
    Less(DataType),
    And,
    Or,
    Not,
    ClassBegin,
    ClassName { name: String },
    ClassField { name: String, typ: DataType },
    ClassEnd,
    New { name: String },
    GetField { name: String, typ: DataType },
    SetField { name: String, typ: DataType },
    ArrayNew(DataType),
    ArrayStore(DataType),
    ArrayLoad(DataType),
    ArrayLength,
}

/// A cursor into an instruction stream. `index` is the position of the next
/// instruction to execute, or one past the end.
pub struct SeekableOpcodes {
    pub opCodes: Vec<OpCode>,
    pub index: usize,
}

} // verus!
