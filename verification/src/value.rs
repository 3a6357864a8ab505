//! Runtime values, heap objects, activation frames, and the output channel.
use vstd::prelude::*;
use crate::types::{DataType, DataTypeV};

verus! {

/// A runtime value. A float is carried as its IEEE-754 bit pattern; a
/// reference is a heap index, or null.
#[derive(Clone, Copy, Debug, PartialEq, Eq, Structural)]
pub enum Value {
    Num(i64),
    Flo(u64),
    Bol(bool),
    Chr(char),
    Reference(Option<usize>),
}

/// A heap object: a mutable character sequence or a mutable array of values.
#[derive(Debug)]
pub enum Obj {
    Str { chars: Vec<char> },
    Arr { internal: Vec<Value> },
}

/// Model of a heap object.
pub ghost enum ObjV {
    Str(Seq<char>),
    Arr(Seq<Value>),
}

impl View for Obj {
    type V = ObjV;

    open spec fn view(&self) -> ObjV {
        match self {
            Obj::Str { chars } => ObjV::Str(chars@),
            Obj::Arr { internal } => ObjV::Arr(internal@),
        }
    }
}

/// One item of the program's output: what one `print` call wrote.
#[derive(Debug)]
pub enum OutItem {
    Num(i64),
    Flo(u64),
    Str { chars: Vec<char> },
}

/// Model of an output item.
pub ghost enum OutItemV {
    Num(i64),
    Flo(u64),
    Str(Seq<char>),
}

impl View for OutItem {
    type V = OutItemV;

    open spec fn view(&self) -> OutItemV {
        match self {
            OutItem::Num(n) => OutItemV::Num(*n),
            OutItem::Flo(b) => OutItemV::Flo(*b),
            OutItem::Str { chars } => OutItemV::Str(chars@),
        }
    }
}

/// A per-call activation record: the callee's locals, the function's name
/// (diagnostics only), and the position to resume at on return.
#[derive(Debug)]
pub struct StackFrame {
    pub localVariables: Vec<Value>,
    pub name: Option<String>,
    pub returnIp: usize,
}

/// Model of an activation record: its locals and its return position.
pub ghost struct FrameV {
    pub locals: Seq<Value>,
    pub ret: int,
}

impl View for StackFrame {
    type V = FrameV;

    open spec fn view(&self) -> FrameV {
        FrameV { locals: self.localVariables@, ret: self.returnIp as int }
    }
}

/// Element-wise model of a sequence of heap objects.
pub open spec fn objs_view(s: Seq<Obj>) -> Seq<ObjV> {
    s.map(|i: int, o: Obj| o@)
}

/// Element-wise model of a sequence of output items.
pub open spec fn out_view(s: Seq<OutItem>) -> Seq<OutItemV> {
    s.map(|i: int, o: OutItem| o@)
}

/// Element-wise model of a sequence of frames.
pub open spec fn frames_view(s: Seq<StackFrame>) -> Seq<FrameV> {
    s.map(|i: int, f: StackFrame| f@)
}

impl Value {
    /// The zero value of a data type: 0, 0.0, false, the NUL character, or
    /// the null reference.
    pub fn defaultOf(t: &DataType) -> (r: Value)
        ensures
            r == Value::default_of_spec(t@),
    {
        match t {
            DataType::Int => Value::Num(0),
            DataType::Float => Value::Flo(0),
            DataType::Bool => Value::Bol(false),
            DataType::Char => Value::Chr('\0'),
            DataType::Object { .. } => Value::Reference(None),
            DataType::Array(_) => Value::Reference(None),
            DataType::Any => Value::Reference(None),
        }
    }

    pub open spec fn default_of_spec(t: DataTypeV) -> Value {
        match t {
            DataTypeV::Int => Value::Num(0),
            DataTypeV::Float => Value::Flo(0),
            DataTypeV::Bool => Value::Bol(false),
            DataTypeV::Char => Value::Chr('\0'),
            DataTypeV::Object { .. } => Value::Reference(None),
            DataTypeV::Array(_) => Value::Reference(None),
            DataTypeV::Any => Value::Reference(None),
        }
    }
}

} // verus!
