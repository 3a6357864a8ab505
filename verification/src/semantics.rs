//! The mathematical small-step semantics of the machine: one configuration,
//! one step per instruction, and the n-step closure the executable
//! interpreter is proved against.
use vstd::prelude::*;
use vstd::wrapping::i64_specs;
use crate::types::DataTypeV;
use crate::value::{Value, ObjV, OutItemV, FrameV};
use crate::opcode::{OpCode, JmpType};
use crate::vm::{FuncV, FuncBodyV, NativeId, lookup_fn};

verus! {

/// A runtime error; the machine aborts on it. The checker rules out
/// `StackUnderflow` and `TypeMismatch` for the code shapes it accepts.
#[derive(Clone, Copy, Debug, PartialEq, Eq, Structural)]
pub enum VmError {
    StackUnderflow,
    TypeMismatch,
    BadLocalIndex,
    BadJump,
    UnknownFunction,
    AssertionFailed { left: i64, right: i64 },
    NullReference,
    IndexOutOfBounds,
    InvalidArgument,
    MissingFunEnd,
    ReservedOpcode,
    UnsupportedFloat,
    MalformedFunction,
}

/// A floating-point operation the machine hands to its host: the machine
/// moves float bit patterns but does not compute on them.
#[derive(Clone, Copy, Debug, PartialEq, Eq, Structural)]
pub enum FloatOp {
    Add,
    Sub,
    Mul,
    Div,
    Equals,
    Greater,
    Less,
    I2F,
}

/// One machine configuration: instruction position, operand stack,
/// activation frames (the last is the current one), heap, and output.
pub ghost struct StV {
    pub ip: int,
    pub stack: Seq<Value>,
    pub frames: Seq<FrameV>,
    pub heap: Seq<ObjV>,
    pub out: Seq<OutItemV>,
}

/// Result of one step.
pub ghost enum StepRes {
    Next(StV),
    DoneR(StV),
    Pause { st: StV, op: FloatOp, a: Value, b: Value },
    Abort(VmError),
}

/// Result of running `n` steps.
pub ghost enum RunRes {
    More(StV),
    DoneR(StV),
    PauseR { st: StV, op: FloatOp, a: Value, b: Value },
    Abort(VmError),
}

/// Position of the `FunEnd` matching an open `FunBegin`, scanning from `i`
/// at the given nesting depth.
pub open spec fn find_fun_end(ops: Seq<OpCode>, i: int, depth: nat) -> Option<int>
    decreases ops.len() - i,
{
    if i < 0 || i >= ops.len() {
        Option::None
    } else {
        match ops[i] {
            OpCode::FunBegin => find_fun_end(ops, i + 1, depth + 1),
            OpCode::FunEnd => {
                if depth == 0 {
                    Option::Some(i)
                } else {
                    find_fun_end(ops, i + 1, (depth - 1) as nat)
                }
            },
            _ => find_fun_end(ops, i + 1, depth),
        }
    }
}

/// The character at one position of a string model.
pub open spec fn chr_at(cs: Seq<char>, k: int) -> char {
    cs[k]
}

/// Result of a native call's effect on stack, heap and output.
pub ghost enum NatRes {
    Go { stack: Seq<Value>, heap: Seq<ObjV>, out: Seq<OutItemV> },
    AbortN(VmError),
}

/// What each built-in native does, reading its arguments from the locals it
/// was handed. `print` on a null or non-string reference prints nothing;
/// `assert` aborts with the two values; the string and array natives follow
/// the heap object they are given.
pub open spec fn native_effect(
    id: NativeId,
    locals: Seq<Value>,
    stack: Seq<Value>,
    heap: Seq<ObjV>,
    out: Seq<OutItemV>,
) -> NatRes {
    match id {
        NativeId::PrintInt => {
            if locals.len() >= 1 && locals[0] is Num {
                NatRes::Go { stack, heap, out: out.push(OutItemV::Num(locals[0]->Num_0)) }
            } else {
                NatRes::AbortN(VmError::TypeMismatch)
            }
        },
        NativeId::PrintFloat => {
            if locals.len() >= 1 && locals[0] is Flo {
                NatRes::Go { stack, heap, out: out.push(OutItemV::Flo(locals[0]->Flo_0)) }
            } else {
                NatRes::AbortN(VmError::TypeMismatch)
            }
        },
        NativeId::PrintString => {
            if locals.len() >= 1 {
                match locals[0] {
                    Value::Reference(Option::Some(ix)) => {
                        if ix < heap.len() {
                            match heap[ix as int] {
                                ObjV::Str(cs) => NatRes::Go {
                                    stack,
                                    heap,
                                    out: out.push(OutItemV::Str(cs)),
                                },
                                _ => NatRes::Go { stack, heap, out },
                            }
                        } else {
                            NatRes::Go { stack, heap, out }
                        }
                    },
                    _ => NatRes::Go { stack, heap, out },
                }
            } else {
                NatRes::AbortN(VmError::TypeMismatch)
            }
        },
        NativeId::AssertIntInt => {
            if locals.len() >= 2 && locals[0] is Num && locals[1] is Num {
                if locals[0]->Num_0 != locals[1]->Num_0 {
                    NatRes::AbortN(
                        VmError::AssertionFailed {
                            left: locals[0]->Num_0,
                            right: locals[1]->Num_0,
                        },
                    )
                } else {
                    NatRes::Go { stack, heap, out }
                }
            } else {
                NatRes::AbortN(VmError::TypeMismatch)
            }
        },
        NativeId::MakeString => {
            NatRes::Go {
                stack: stack.push(Value::Reference(Option::Some(heap.len() as usize))),
                heap: heap.push(ObjV::Str(Seq::empty())),
                out,
            }
        },
        NativeId::AppendChar => {
            if locals.len() >= 2 && locals[0] is Reference {
                match locals[0]->Reference_0 {
                    Option::None => NatRes::AbortN(VmError::NullReference),
                    Option::Some(ix) => {
                        if ix < heap.len() && heap[ix as int] is Str && locals[1] is Chr {
                            NatRes::Go {
                                stack,
                                heap: heap.update(
                                    ix as int,
                                    ObjV::Str(heap[ix as int]->Str_0.push(locals[1]->Chr_0)),
                                ),
                                out,
                            }
                        } else {
                            NatRes::AbortN(VmError::TypeMismatch)
                        }
                    },
                }
            } else {
                NatRes::AbortN(VmError::TypeMismatch)
            }
        },
        NativeId::StrLen => {
            if locals.len() >= 1 && locals[0] is Reference {
                match locals[0]->Reference_0 {
                    Option::None => NatRes::AbortN(VmError::NullReference),
                    Option::Some(ix) => {
                        if ix < heap.len() && heap[ix as int] is Str {
                            NatRes::Go {
                                stack: stack.push(
                                    Value::Num(heap[ix as int]->Str_0.len() as i64),
                                ),
                                heap,
                                out,
                            }
                        } else {
                            NatRes::AbortN(VmError::TypeMismatch)
                        }
                    },
                }
            } else {
                NatRes::AbortN(VmError::TypeMismatch)
            }
        },
        NativeId::GetChar => {
            if locals.len() >= 2 && locals[0] is Reference && locals[1] is Num {
                match locals[0]->Reference_0 {
                    Option::None => NatRes::AbortN(VmError::NullReference),
                    Option::Some(ix) => {
                        if ix < heap.len() && heap[ix as int] is Str {
                            let cs = heap[ix as int]->Str_0;
                            let k = locals[1]->Num_0;
                            if 0 <= k < cs.len() {
                                NatRes::Go {
                                    stack: stack.push(Value::Chr(chr_at(cs, k as int))),
                                    heap,
                                    out,
                                }
                            } else {
                                NatRes::AbortN(VmError::IndexOutOfBounds)
                            }
                        } else {
                            NatRes::AbortN(VmError::TypeMismatch)
                        }
                    },
                }
            } else {
                NatRes::AbortN(VmError::TypeMismatch)
            }
        },
        NativeId::EndsWith => {
            if locals.len() >= 2 {
                match (locals[0], locals[1]) {
                    (Value::Reference(oi), Value::Reference(oj)) => {
                        match (oi, oj) {
                            (Option::Some(ix), Option::Some(jx)) => {
                                if ix < heap.len() && heap[ix as int] is Str && jx < heap.len()
                                    && heap[jx as int] is Str {
                                    let s = heap[ix as int]->Str_0;
                                    let t = heap[jx as int]->Str_0;
                                    let r = s.len() >= t.len() && s.subrange(
                                        s.len() - t.len(),
                                        s.len() as int,
                                    ) == t;
                                    NatRes::Go { stack: stack.push(Value::Bol(r)), heap, out }
                                } else {
                                    NatRes::AbortN(VmError::TypeMismatch)
                                }
                            },
                            _ => NatRes::AbortN(VmError::NullReference),
                        }
                    },
                    _ => NatRes::AbortN(VmError::TypeMismatch),
                }
            } else {
                NatRes::AbortN(VmError::TypeMismatch)
            }
        },
        NativeId::ArrayLen => {
            if locals.len() >= 1 && locals[0] is Reference {
                match locals[0]->Reference_0 {
                    Option::None => NatRes::AbortN(VmError::NullReference),
                    Option::Some(ix) => {
                        if ix < heap.len() && heap[ix as int] is Arr {
                            NatRes::Go {
                                stack: stack.push(
                                    Value::Num(heap[ix as int]->Arr_0.len() as i64),
                                ),
                                heap,
                                out,
                            }
                        } else {
                            NatRes::AbortN(VmError::TypeMismatch)
                        }
                    },
                }
            } else {
                NatRes::AbortN(VmError::TypeMismatch)
            }
        },
        NativeId::MakeArray => {
            if locals.len() >= 1 && locals[0] is Num {
                let n = locals[0]->Num_0;
                if n < 0 {
                    NatRes::AbortN(VmError::InvalidArgument)
                } else {
                    NatRes::Go {
                        stack: stack.push(Value::Reference(Option::Some(heap.len() as usize))),
                        heap: heap.push(ObjV::Arr(Seq::new(n as nat, |k: int| Value::Num(0)))),
                        out,
                    }
                }
            } else {
                NatRes::AbortN(VmError::TypeMismatch)
            }
        },
    }
}

/// The locals of a fresh frame: the arguments, then each remaining declared
/// local's zero value.
pub open spec fn frame_locals(args: Seq<Value>, localTypes: Seq<DataTypeV>) -> Seq<Value> {
    if args.len() <= localTypes.len() {
        args + Seq::new(
            (localTypes.len() - args.len()) as nat,
            |k: int| Value::default_of_spec(localTypes[args.len() + k]),
        )
    } else {
        args
    }
}

/// One step of the machine on configuration `st`. Executing past the end of
/// the stream, or `Return` in the root frame, is termination. A `FunBegin`
/// is skipped to its matching `FunEnd`: bodies are entered only through
/// `Call`. Arithmetic on integers wraps; any floating-point computation is
/// handed to the host as a pause. `Call` pops the arguments right-to-left
/// into left-to-right local order and either runs the native's effect or
/// pushes a frame whose return position is the following instruction.
pub open spec fn step(ops: Seq<OpCode>, funcs: Seq<FuncV>, st: StV) -> StepRes {
    if st.frames.len() == 0 {
        StepRes::Abort(VmError::InvalidArgument)
    } else if st.ip >= ops.len() || st.ip < 0 {
        StepRes::DoneR(st)
    } else {
        let frame = st.frames.last();
        match ops[st.ip] {
            OpCode::FunBegin => {
                match find_fun_end(ops, st.ip + 1, 0) {
                    Option::Some(j) => StepRes::Next(StV { ip: j + 1, ..st }),
                    Option::None => StepRes::Abort(VmError::MissingFunEnd),
                }
            },
            OpCode::FunName { .. } => StepRes::Abort(VmError::ReservedOpcode),
            OpCode::LocalVarTable { .. } => StepRes::Abort(VmError::ReservedOpcode),
            OpCode::FunReturn { .. } => StepRes::Abort(VmError::ReservedOpcode),
            OpCode::FunEnd => StepRes::Abort(VmError::ReservedOpcode),
            OpCode::F2I => {
                if st.stack.len() == 0 {
                    StepRes::Abort(VmError::StackUnderflow)
                } else {
                    match st.stack.last() {
                        Value::Flo(b) => StepRes::Next(
                            StV {
                                ip: st.ip + 1,
                                stack: st.stack.drop_last().push(
                                    Value::Num(crate::float_bits::f2i_bits(b)),
                                ),
                                ..st
                            },
                        ),
                        _ => StepRes::Abort(VmError::TypeMismatch),
                    }
                }
            },
            OpCode::I2F => {
                if st.stack.len() == 0 {
                    StepRes::Abort(VmError::StackUnderflow)
                } else {
                    match st.stack.last() {
                        Value::Num(n) => {
                            if -0x20000000000000 < n < 0x20000000000000 {
                                StepRes::Next(
                                    StV {
                                        ip: st.ip + 1,
                                        stack: st.stack.drop_last().push(
                                            Value::Flo(crate::float_bits::i2f_small_bits(n)),
                                        ),
                                        ..st
                                    },
                                )
                            } else {
                                StepRes::Pause {
                                    st: StV {
                                        ip: st.ip + 1,
                                        stack: st.stack.drop_last(),
                                        ..st
                                    },
                                    op: FloatOp::I2F,
                                    a: st.stack.last(),
                                    b: Value::Num(0),
                                }
                            }
                        },
                        _ => StepRes::Abort(VmError::TypeMismatch),
                    }
                }
            },
            OpCode::PushInt(v) => StepRes::Next(
                StV { ip: st.ip + 1, stack: st.stack.push(Value::Num(v)), ..st },
            ),
            OpCode::PushFloat(b) => StepRes::Next(
                StV { ip: st.ip + 1, stack: st.stack.push(Value::Flo(b)), ..st },
            ),
            OpCode::PushBool(b) => StepRes::Next(
                StV { ip: st.ip + 1, stack: st.stack.push(Value::Bol(b)), ..st },
            ),
            OpCode::PushChar(c) => StepRes::Next(
                StV { ip: st.ip + 1, stack: st.stack.push(Value::Chr(c)), ..st },
            ),
            OpCode::Pop => {
                if st.stack.len() == 0 {
                    StepRes::Abort(VmError::StackUnderflow)
                } else {
                    StepRes::Next(StV { ip: st.ip + 1, stack: st.stack.drop_last(), ..st })
                }
            },
            OpCode::Dup => {
                if st.stack.len() == 0 {
                    StepRes::Abort(VmError::StackUnderflow)
                } else {
                    StepRes::Next(
                        StV { ip: st.ip + 1, stack: st.stack.push(st.stack.last()), ..st },
                    )
                }
            },
            OpCode::PushLocal { index } => {
                if index < frame.locals.len() {
                    StepRes::Next(
                        StV { ip: st.ip + 1, stack: st.stack.push(frame.locals[index as int]), ..st },
                    )
                } else {
                    StepRes::Abort(VmError::BadLocalIndex)
                }
            },
            OpCode::SetLocal { index, .. } => {
                if st.stack.len() == 0 {
                    StepRes::Abort(VmError::StackUnderflow)
                } else if index >= frame.locals.len() {
                    StepRes::Abort(VmError::BadLocalIndex)
                } else {
                    let f2 = FrameV {
                        locals: frame.locals.update(index as int, st.stack.last()),
                        ..frame
                    };
                    StepRes::Next(
                        StV {
                            ip: st.ip + 1,
                            stack: st.stack.drop_last(),
                            frames: st.frames.update(st.frames.len() - 1, f2),
                            ..st
                        },
                    )
                }
            },
            OpCode::Inc { index, .. } => {
                if index >= frame.locals.len() {
                    StepRes::Abort(VmError::BadLocalIndex)
                } else {
                    match frame.locals[index as int] {
                        Value::Num(n) => {
                            let f2 = FrameV {
                                locals: frame.locals.update(
                                    index as int,
                                    Value::Num(i64_specs::wrapping_add(n, 1)),
                                ),
                                ..frame
                            };
                            StepRes::Next(
                                StV {
                                    ip: st.ip + 1,
                                    frames: st.frames.update(st.frames.len() - 1, f2),
                                    ..st
                                },
                            )
                        },
                        Value::Flo(_) => StepRes::Abort(VmError::UnsupportedFloat),
                        _ => StepRes::Abort(VmError::TypeMismatch),
                    }
                }
            },
            OpCode::Dec { index, .. } => {
                if index >= frame.locals.len() {
                    StepRes::Abort(VmError::BadLocalIndex)
                } else {
                    match frame.locals[index as int] {
                        Value::Num(n) => {
                            let f2 = FrameV {
                                locals: frame.locals.update(
                                    index as int,
                                    Value::Num(i64_specs::wrapping_sub(n, 1)),
                                ),
                                ..frame
                            };
                            StepRes::Next(
                                StV {
                                    ip: st.ip + 1,
                                    frames: st.frames.update(st.frames.len() - 1, f2),
                                    ..st
                                },
                            )
                        },
                        Value::Flo(_) => StepRes::Abort(VmError::UnsupportedFloat),
                        _ => StepRes::Abort(VmError::TypeMismatch),
                    }
                }
            },
            OpCode::Jmp { offset, jmpType } => {
                let taken_st = match jmpType {
                    JmpType::Unconditional => Option::Some((st.stack, true)),
                    JmpType::IfTrue => {
                        if st.stack.len() == 0 {
                            Option::None
                        } else {
                            match st.stack.last() {
                                Value::Bol(b) => Option::Some((st.stack.drop_last(), b)),
                                _ => Option::None,
                            }
                        }
                    },
                    JmpType::IfFalse => {
                        if st.stack.len() == 0 {
                            Option::None
                        } else {
                            match st.stack.last() {
                                Value::Bol(b) => Option::Some((st.stack.drop_last(), !b)),
                                _ => Option::None,
                            }
                        }
                    },
                };
                match taken_st {
                    Option::None => {
                        if st.stack.len() == 0 {
                            StepRes::Abort(VmError::StackUnderflow)
                        } else {
                            StepRes::Abort(VmError::TypeMismatch)
                        }
                    },
                    Option::Some((stk, taken)) => {
                        if !taken {
                            StepRes::Next(StV { ip: st.ip + 1, stack: stk, ..st })
                        } else {
                            let target = st.ip + 1 + offset;
                            if 0 <= target <= ops.len() {
                                StepRes::Next(StV { ip: target, stack: stk, ..st })
                            } else {
                                StepRes::Abort(VmError::BadJump)
                            }
                        }
                    },
                }
            },
            OpCode::Call { encoded } => {
                match lookup_fn(funcs, encoded@) {
                    Option::None => StepRes::Abort(VmError::UnknownFunction),
                    Option::Some(f) => {
                        let argc = f.args.len() as int;
                        if st.stack.len() < argc {
                            StepRes::Abort(VmError::StackUnderflow)
                        } else {
                            let argvals = st.stack.subrange(
                                st.stack.len() - argc,
                                st.stack.len() as int,
                            );
                            let rest = st.stack.subrange(0, st.stack.len() - argc);
                            match f.body {
                                FuncBodyV::Native(id) => {
                                    match native_effect(id, argvals, rest, st.heap, st.out) {
                                        NatRes::AbortN(e) => StepRes::Abort(e),
                                        NatRes::Go { stack, heap, out } => StepRes::Next(
                                            StV { ip: st.ip + 1, stack, heap, out, ..st },
                                        ),
                                    }
                                },
                                FuncBodyV::Bytecode(start) => {
                                    let f2 = FrameV {
                                        locals: frame_locals(argvals, f.locals),
                                        ret: st.ip + 1,
                                    };
                                    StepRes::Next(
                                        StV {
                                            ip: start,
                                            stack: rest,
                                            frames: st.frames.push(f2),
                                            ..st
                                        },
                                    )
                                },
                            }
                        }
                    },
                }
            },
            OpCode::Return => {
                if st.frames.len() <= 1 {
                    StepRes::DoneR(StV { ip: st.ip + 1, ..st })
                } else {
                    StepRes::Next(
                        StV { ip: frame.ret, frames: st.frames.drop_last(), ..st },
                    )
                }
            },
            OpCode::Add(_) => bin_arith(st, FloatOp::Add),
            OpCode::Sub(_) => bin_arith(st, FloatOp::Sub),
            OpCode::Mul(_) => bin_arith(st, FloatOp::Mul),
            OpCode::Div(_) => bin_arith(st, FloatOp::Div),
            OpCode::Equals(_) => bin_cmp(st, FloatOp::Equals),
            OpCode::Greater(_) => bin_cmp(st, FloatOp::Greater),
            OpCode::Less(_) => bin_cmp(st, FloatOp::Less),
            OpCode::And => {
                bin_bool(st, true)
            },
            OpCode::Or => {
                bin_bool(st, false)
            },
            OpCode::Not => {
                if st.stack.len() == 0 {
                    StepRes::Abort(VmError::StackUnderflow)
                } else {
                    match st.stack.last() {
                        Value::Bol(b) => StepRes::Next(
                            StV {
                                ip: st.ip + 1,
                                stack: st.stack.drop_last().push(Value::Bol(!b)),
                                ..st
                            },
                        ),
                        _ => StepRes::Abort(VmError::TypeMismatch),
                    }
                }
            },
            OpCode::ClassBegin => StepRes::Abort(VmError::ReservedOpcode),
            OpCode::ClassName { .. } => StepRes::Abort(VmError::ReservedOpcode),
            OpCode::ClassField { .. } => StepRes::Abort(VmError::ReservedOpcode),
            OpCode::ClassEnd => StepRes::Abort(VmError::ReservedOpcode),
            OpCode::New { .. } => StepRes::Abort(VmError::ReservedOpcode),
            OpCode::GetField { .. } => StepRes::Abort(VmError::ReservedOpcode),
            OpCode::SetField { .. } => StepRes::Abort(VmError::ReservedOpcode),
            OpCode::ArrayNew(_) => StepRes::Abort(VmError::ReservedOpcode),
            OpCode::ArrayStore(_) => StepRes::Abort(VmError::ReservedOpcode),
            OpCode::ArrayLoad(_) => StepRes::Abort(VmError::ReservedOpcode),
            OpCode::ArrayLength => StepRes::Abort(VmError::ReservedOpcode),
        }
    }
}

/// Binary arithmetic: both operands integers wraps in the machine; both
/// floats is handed to the host; anything else is a tag mismatch. The right
/// operand is on top.
pub open spec fn bin_arith(st: StV, op: FloatOp) -> StepRes {
    if st.stack.len() < 2 {
        StepRes::Abort(VmError::StackUnderflow)
    } else {
        let b = st.stack.last();
        let a = st.stack.drop_last().last();
        let rest = st.stack.drop_last().drop_last();
        if a is Num && b is Num {
            if op is Div {
                StepRes::Pause { st: StV { ip: st.ip + 1, stack: rest, ..st }, op, a, b }
            } else {
                let x = a->Num_0;
                let y = b->Num_0;
                let r = match op {
                    FloatOp::Add => i64_specs::wrapping_add(x, y),
                    FloatOp::Sub => i64_specs::wrapping_sub(x, y),
                    _ => i64_specs::wrapping_mul(x, y),
                };
                StepRes::Next(StV { ip: st.ip + 1, stack: rest.push(Value::Num(r)), ..st })
            }
        } else if a is Flo && b is Flo {
            StepRes::Pause { st: StV { ip: st.ip + 1, stack: rest, ..st }, op, a, b }
        } else {
            StepRes::Abort(VmError::TypeMismatch)
        }
    }
}

/// Binary comparison: integers, characters and references compare in the
/// machine; floats are handed to the host. The right operand is on top.
pub open spec fn bin_cmp(st: StV, op: FloatOp) -> StepRes {
    if st.stack.len() < 2 {
        StepRes::Abort(VmError::StackUnderflow)
    } else {
        let b = st.stack.last();
        let a = st.stack.drop_last().last();
        let rest = st.stack.drop_last().drop_last();
        if a is Flo && b is Flo {
            StepRes::Pause { st: StV { ip: st.ip + 1, stack: rest, ..st }, op, a, b }
        } else if op is Equals {
            let r = match (a, b) {
                (Value::Num(x), Value::Num(y)) => Option::Some(x == y),
                (Value::Bol(x), Value::Bol(y)) => Option::Some(x == y),
                (Value::Chr(x), Value::Chr(y)) => Option::Some(x == y),
                (Value::Reference(x), Value::Reference(y)) => Option::Some(x == y),
                _ => Option::None,
            };
            match r {
                Option::Some(v) => StepRes::Next(
                    StV { ip: st.ip + 1, stack: rest.push(Value::Bol(v)), ..st },
                ),
                Option::None => StepRes::Abort(VmError::TypeMismatch),
            }
        } else {
            let r = match (a, b) {
                (Value::Num(x), Value::Num(y)) => Option::Some(
                    if op is Greater {
                        x > y
                    } else {
                        x < y
                    },
                ),
                (Value::Chr(x), Value::Chr(y)) => Option::Some(
                    if op is Greater {
                        x as u32 > y as u32
                    } else {
                        (x as u32) < (y as u32)
                    },
                ),
                _ => Option::None,
            };
            match r {
                Option::Some(v) => StepRes::Next(
                    StV { ip: st.ip + 1, stack: rest.push(Value::Bol(v)), ..st },
                ),
                Option::None => StepRes::Abort(VmError::TypeMismatch),
            }
        }
    }
}

/// `And` / `Or` on two booleans; the right operand is on top.
pub open spec fn bin_bool(st: StV, is_and: bool) -> StepRes {
    if st.stack.len() < 2 {
        StepRes::Abort(VmError::StackUnderflow)
    } else {
        let b = st.stack.last();
        let a = st.stack.drop_last().last();
        let rest = st.stack.drop_last().drop_last();
        if a is Bol && b is Bol {
            let r = if is_and {
                a->Bol_0 && b->Bol_0
            } else {
                a->Bol_0 || b->Bol_0
            };
            StepRes::Next(StV { ip: st.ip + 1, stack: rest.push(Value::Bol(r)), ..st })
        } else {
            StepRes::Abort(VmError::TypeMismatch)
        }
    }
}

/// `n` steps from `st`: the configuration still running, or how the run
/// ended inside the budget.
pub open spec fn run_n(ops: Seq<OpCode>, funcs: Seq<FuncV>, st: StV, n: nat) -> RunRes
    decreases n,
{
    if n == 0 {
        RunRes::More(st)
    } else {
        match step(ops, funcs, st) {
            StepRes::Next(s) => run_n(ops, funcs, s, (n - 1) as nat),
            StepRes::DoneR(s) => RunRes::DoneR(s),
            StepRes::Pause { st: s, op, a, b } => RunRes::PauseR { st: s, op, a, b },
            StepRes::Abort(e) => RunRes::Abort(e),
        }
    }
}

/// Runs compose: a run still going after `a` steps continues for `b` more.
pub proof fn lemma_run_n_add(ops: Seq<OpCode>, funcs: Seq<FuncV>, st: StV, a: nat, m: StV, b: nat)
    requires
        run_n(ops, funcs, st, a) == RunRes::More(m),
    ensures
        run_n(ops, funcs, st, a + b) == run_n(ops, funcs, m, b),
    decreases a,
{
    if a == 0 {
    } else {
        match step(ops, funcs, st) {
            StepRes::Next(s) => {
                lemma_run_n_add(ops, funcs, s, (a - 1) as nat, m, b);
            },
            _ => {},
        }
    }
}

/// Extending a run that is still going by one more step.
pub proof fn lemma_run_n_snoc(ops: Seq<OpCode>, funcs: Seq<FuncV>, st: StV, n: nat, m: StV)
    requires
        run_n(ops, funcs, st, n) == RunRes::More(m),
    ensures
        run_n(ops, funcs, st, n + 1) == match step(ops, funcs, m) {
            StepRes::Next(s) => RunRes::More(s),
            StepRes::DoneR(s) => RunRes::DoneR(s),
            StepRes::Pause { st: s, op, a, b } => RunRes::PauseR { st: s, op, a, b },
            StepRes::Abort(e) => RunRes::Abort(e),
        },
    decreases n,
{
    if n == 0 {
    } else {
        match step(ops, funcs, st) {
            StepRes::Next(s) => {
                lemma_run_n_snoc(ops, funcs, s, (n - 1) as nat, m);
            },
            _ => {},
        }
    }
}

} // verus!
