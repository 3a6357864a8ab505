//! The executable interpreter, proved to follow the small-step semantics.
use vstd::prelude::*;
use crate::types::{DataType, DataTypeV, dt_view, dt_view_seq, lemma_dt_view_seq};
use crate::value::{Value, Obj, ObjV, OutItem, OutItemV, StackFrame, FrameV, objs_view, out_view,
    frames_view};
use crate::opcode::{OpCode, JmpType, SeekableOpcodes};
use crate::vm::{VirtualMachine, Func, FuncBody, FuncBodyV, FuncV, NativeId, VariableMetadata,
    meta_types, spec_sig, lookup_fn, funcs_view, genFunNameMeta};
use crate::semantics::{VmError, FloatOp, StV, StepRes, RunRes, step, run_n, lemma_run_n_snoc,
    native_effect, NatRes, find_fun_end, frame_locals};

verus! {

/// What a finished call of `run` reports: the program ran to its end, or it
/// needs the host to compute one floating-point operation and push the
/// result before `run` is called again.
#[derive(Clone, Copy, Debug, PartialEq, Eq, Structural)]
pub enum RunOutcome {
    Done,
    NeedFloat { op: FloatOp, a: Value, b: Value },
    Exhausted,
}

/// A copy of a character vector with the same model.
fn cloneChars(v: &Vec<char>) -> (r: Vec<char>)
    ensures
        r@ == v@,
{
    let mut r: Vec<char> = Vec::new();
    let n = v.len();
    let mut i: usize = 0;
    while i < n
        invariant
            n == v@.len(),
            i <= n,
            r@ == v@.subrange(0, i as int),
        decreases n - i,
    {
        r.push(v[i]);
        proof {
            assert(r@ =~= v@.subrange(0, i + 1 as int));
        }
        i = i + 1;
    }
    proof {
        assert(v@.subrange(0, n as int) =~= v@);
    }
    r
}

/// Run one native: its declared effect on the machine's stack, heap and
/// output, or the error it aborts with.
#[verifier::loop_isolation(false)]
pub fn runNative(vm: &mut VirtualMachine, id: NativeId, locals: &Vec<Value>) -> (r: Result<
    (),
    VmError,
>)
    ensures
        final(vm).functions == old(vm).functions,
        match native_effect(
            id,
            locals@,
            old(vm).stack@,
            objs_view(old(vm).heap@),
            out_view(old(vm).output@),
        ) {
            NatRes::Go { stack, heap, out } => {
                &&& r is Ok
                &&& final(vm).stack@ == stack
                &&& objs_view(final(vm).heap@) == heap
                &&& out_view(final(vm).output@) == out
            },
            NatRes::AbortN(e) => {
                &&& r == Result::<(), VmError>::Err(e)
                &&& final(vm).stack@ == old(vm).stack@
                &&& final(vm).heap@ == old(vm).heap@
                &&& final(vm).output@ == old(vm).output@
            },
        },
{
    match id {
        NativeId::PrintInt => {
            if locals.len() < 1 {
                return Result::Err(VmError::TypeMismatch);
            }
            match locals[0] {
                Value::Num(n) => {
                    vm.output.push(OutItem::Num(n));
                    proof {
                        assert(out_view(vm.output@) =~= out_view(old(vm).output@).push(
                            OutItemV::Num(n),
                        ));
                    }
                    Result::Ok(())
                },
                _ => Result::Err(VmError::TypeMismatch),
            }
        },
        NativeId::PrintFloat => {
            if locals.len() < 1 {
                return Result::Err(VmError::TypeMismatch);
            }
            match locals[0] {
                Value::Flo(b) => {
                    vm.output.push(OutItem::Flo(b));
                    proof {
                        assert(out_view(vm.output@) =~= out_view(old(vm).output@).push(
                            OutItemV::Flo(b),
                        ));
                    }
                    Result::Ok(())
                },
                _ => Result::Err(VmError::TypeMismatch),
            }
        },
        NativeId::PrintString => {
            if locals.len() < 1 {
                return Result::Err(VmError::TypeMismatch);
            }
            match locals[0] {
                Value::Reference(Option::Some(ix)) => {
                    if ix < vm.heap.len() {
                        let mut item: Option<OutItem> = Option::None;
                        match &vm.heap[ix] {
                            Obj::Str { chars } => {
                                item = Option::Some(OutItem::Str { chars: cloneChars(chars) });
                            },
                            _ => {},
                        }
                        match item {
                            Option::Some(it) => {
                                proof {
                                    assert(objs_view(vm.heap@)[ix as int] == vm.heap@[ix as int]@);
                                }
                                vm.output.push(it);
                                proof {
                                    assert(out_view(vm.output@) =~= out_view(old(vm).output@).push(
                                        OutItemV::Str(old(vm).heap@[ix as int]@->Str_0),
                                    ));
                                }
                            },
                            Option::None => {
                                proof {
                                    assert(objs_view(vm.heap@)[ix as int] == vm.heap@[ix as int]@);
                                }
                            },
                        }
                        Result::Ok(())
                    } else {
                        Result::Ok(())
                    }
                },
                _ => Result::Ok(()),
            }
        },
        NativeId::AssertIntInt => {
            if locals.len() < 2 {
                return Result::Err(VmError::TypeMismatch);
            }
            match (locals[0], locals[1]) {
                (Value::Num(l), Value::Num(rr)) => {
                    if l != rr {
                        Result::Err(VmError::AssertionFailed { left: l, right: rr })
                    } else {
                        Result::Ok(())
                    }
                },
                _ => Result::Err(VmError::TypeMismatch),
            }
        },
        NativeId::MakeString => {
            let ix = vm.heap.len();
            vm.heap.push(Obj::Str { chars: Vec::new() });
            vm.stack.push(Value::Reference(Option::Some(ix)));
            proof {
                assert(objs_view(vm.heap@) =~= objs_view(old(vm).heap@).push(
                    ObjV::Str(Seq::empty()),
                ));
            }
            Result::Ok(())
        },
        NativeId::AppendChar => {
            if locals.len() < 2 {
                return Result::Err(VmError::TypeMismatch);
            }
            match locals[0] {
                Value::Reference(Option::None) => Result::Err(VmError::NullReference),
                Value::Reference(Option::Some(ix)) => {
                    if ix >= vm.heap.len() {
                        return Result::Err(VmError::TypeMismatch);
                    }
                    match locals[1] {
                        Value::Chr(c) => {
                            proof {
                                assert(objs_view(vm.heap@)[ix as int] == vm.heap@[ix as int]@);
                            }
                            let ghost heapPre = vm.heap@;
                            let o = &mut vm.heap[ix];
                            match o {
                                Obj::Str { chars } => {
                                    chars.push(c);
                                    proof {
                                        assert(objs_view(vm.heap@) =~= objs_view(
                                            old(vm).heap@,
                                        ).update(
                                            ix as int,
                                            ObjV::Str(
                                                old(vm).heap@[ix as int]@->Str_0.push(c),
                                            ),
                                        ));
                                    }
                                    Result::Ok(())
                                },
                                _ => {
                                    proof {
                                        assert(vm.heap@ =~= heapPre);
                                    }
                                    Result::Err(VmError::TypeMismatch)
                                },
                            }
                        },
                        _ => Result::Err(VmError::TypeMismatch),
                    }
                },
                _ => Result::Err(VmError::TypeMismatch),
            }
        },
        NativeId::StrLen => {
            if locals.len() < 1 {
                return Result::Err(VmError::TypeMismatch);
            }
            match locals[0] {
                Value::Reference(Option::None) => Result::Err(VmError::NullReference),
                Value::Reference(Option::Some(ix)) => {
                    if ix >= vm.heap.len() {
                        return Result::Err(VmError::TypeMismatch);
                    }
                    proof {
                        assert(objs_view(vm.heap@)[ix as int] == vm.heap@[ix as int]@);
                    }
                    match &vm.heap[ix] {
                        Obj::Str { chars } => {
                            let n = chars.len();
                            vm.stack.push(Value::Num(n as i64));
                            Result::Ok(())
                        },
                        _ => Result::Err(VmError::TypeMismatch),
                    }
                },
                _ => Result::Err(VmError::TypeMismatch),
            }
        },
        NativeId::GetChar => {
            if locals.len() < 2 {
                return Result::Err(VmError::TypeMismatch);
            }
            match (locals[0], locals[1]) {
                (Value::Reference(Option::None), Value::Num(_)) => Result::Err(
                    VmError::NullReference,
                ),
                (Value::Reference(Option::Some(ix)), Value::Num(k)) => {
                    if ix >= vm.heap.len() {
                        return Result::Err(VmError::TypeMismatch);
                    }
                    proof {
                        assert(objs_view(vm.heap@)[ix as int] == vm.heap@[ix as int]@);
                    }
                    match &vm.heap[ix] {
                        Obj::Str { chars } => {
                            if k < 0 {
                                return Result::Err(VmError::IndexOutOfBounds);
                            }
                            let n = chars.len();
                            if k as u64 >= n as u64 {
                                return Result::Err(VmError::IndexOutOfBounds);
                            }
                            let c = chars[k as usize];
                            vm.stack.push(Value::Chr(c));
                            Result::Ok(())
                        },
                        _ => Result::Err(VmError::TypeMismatch),
                    }
                },
                _ => Result::Err(VmError::TypeMismatch),
            }
        },
        NativeId::EndsWith => {
            if locals.len() < 2 {
                return Result::Err(VmError::TypeMismatch);
            }
            match (locals[0], locals[1]) {
                (Value::Reference(oi), Value::Reference(oj)) => {
                    match (oi, oj) {
                        (Option::Some(ix), Option::Some(jx)) => {
                            if ix >= vm.heap.len() || jx >= vm.heap.len() {
                                return Result::Err(VmError::TypeMismatch);
                            }
                            proof {
                                assert(objs_view(vm.heap@)[ix as int] == vm.heap@[ix as int]@);
                                assert(objs_view(vm.heap@)[jx as int] == vm.heap@[jx as int]@);
                            }
                            let sLen: usize;
                            let tLen: usize;
                            match &vm.heap[ix] {
                                Obj::Str { chars } => {
                                    sLen = chars.len();
                                },
                                _ => {
                                    return Result::Err(VmError::TypeMismatch);
                                },
                            }
                            match &vm.heap[jx] {
                                Obj::Str { chars } => {
                                    tLen = chars.len();
                                },
                                _ => {
                                    return Result::Err(VmError::TypeMismatch);
                                },
                            }
                            let ghost s = vm.heap@[ix as int]@->Str_0;
                            let ghost t = vm.heap@[jx as int]@->Str_0;
                            if sLen < tLen {
                                vm.stack.push(Value::Bol(false));
                                return Result::Ok(());
                            }
                            let off = sLen - tLen;
                            let mut q: usize = 0;
                            let mut good = true;
                            while q < tLen
                                invariant
                                    q <= tLen,
                                    good == (forall|w: int|
                                        0 <= w < q ==> s[off + w] == t[w]),
                                decreases tLen - q,
                            {
                                let a: char;
                                let b: char;
                                match &vm.heap[ix] {
                                    Obj::Str { chars } => {
                                        a = chars[off + q];
                                    },
                                    _ => {
                                        return Result::Err(VmError::TypeMismatch);
                                    },
                                }
                                match &vm.heap[jx] {
                                    Obj::Str { chars } => {
                                        b = chars[q];
                                    },
                                    _ => {
                                        return Result::Err(VmError::TypeMismatch);
                                    },
                                }
                                if a != b {
                                    good = false;
                                }
                                proof {
                                    if !good {
                                        assert(!(forall|w: int|
                                            0 <= w < q + 1 ==> s[off + w] == t[w]));
                                    }
                                }
                                q = q + 1;
                            }
                            proof {
                                let sub = s.subrange(s.len() - t.len(), s.len() as int);
                                if good {
                                    assert(sub =~= t);
                                } else {
                                    let w = choose|w: int|
                                        0 <= w < tLen && s[off + w] != t[w];
                                    assert(sub[w] != t[w]);
                                }
                            }
                            vm.stack.push(Value::Bol(good));
                            Result::Ok(())
                        },
                        _ => Result::Err(VmError::NullReference),
                    }
                },
                _ => Result::Err(VmError::TypeMismatch),
            }
        },
        NativeId::ArrayLen => {
            if locals.len() < 1 {
                return Result::Err(VmError::TypeMismatch);
            }
            match locals[0] {
                Value::Reference(Option::None) => Result::Err(VmError::NullReference),
                Value::Reference(Option::Some(ix)) => {
                    if ix >= vm.heap.len() {
                        return Result::Err(VmError::TypeMismatch);
                    }
                    proof {
                        assert(objs_view(vm.heap@)[ix as int] == vm.heap@[ix as int]@);
                    }
                    match &vm.heap[ix] {
                        Obj::Arr { internal } => {
                            let n = internal.len();
                            vm.stack.push(Value::Num(n as i64));
                            Result::Ok(())
                        },
                        _ => Result::Err(VmError::TypeMismatch),
                    }
                },
                _ => Result::Err(VmError::TypeMismatch),
            }
        },
        NativeId::MakeArray => {
            if locals.len() < 1 {
                return Result::Err(VmError::TypeMismatch);
            }
            match locals[0] {
                Value::Num(n) => {
                    if n < 0 {
                        return Result::Err(VmError::InvalidArgument);
                    }
                    let mut arr: Vec<Value> = Vec::new();
                    let mut q: u64 = 0;
                    while q < n as u64
                        invariant
                            0 <= n,
                            q <= n as u64,
                            arr@ =~= Seq::new(q as nat, |w: int| Value::Num(0)),
                        decreases n as u64 - q,
                    {
                        arr.push(Value::Num(0));
                        proof {
                            assert(arr@ =~= Seq::new((q + 1) as nat, |w: int| Value::Num(0)));
                        }
                        q = q + 1;
                    }
                    let ix = vm.heap.len();
                    vm.heap.push(Obj::Arr { internal: arr });
                    vm.stack.push(Value::Reference(Option::Some(ix)));
                    proof {
                        assert(objs_view(vm.heap@) =~= objs_view(old(vm).heap@).push(
                            ObjV::Arr(Seq::new(n as nat, |w: int| Value::Num(0))),
                        ));
                    }
                    Result::Ok(())
                },
                _ => Result::Err(VmError::TypeMismatch),
            }
        },
    }
}

/// Position of the `FunEnd` matching a `FunBegin` whose body starts at
/// `from`.
#[verifier::loop_isolation(false)]
pub fn findFunEnd(ops: &Vec<OpCode>, from: usize) -> (r: Option<usize>)
    ensures
        match r {
            Option::Some(j) => find_fun_end(ops@, from as int, 0) == Option::Some(j as int) && j
                < ops@.len(),
            Option::None => find_fun_end(ops@, from as int, 0) is None,
        },
{
    let len = ops.len();
    let mut j = from;
    let mut d: usize = 0;
    while j < len
        invariant
            from <= j,
            d as int <= j - from,
            find_fun_end(ops@, from as int, 0) == find_fun_end(ops@, j as int, d as nat),
        decreases len - j,
    {
        match &ops[j] {
            OpCode::FunBegin => {
                d = d + 1;
            },
            OpCode::FunEnd => {
                if d == 0 {
                    return Option::Some(j);
                }
                d = d - 1;
            },
            _ => {},
        }
        j = j + 1;
    }
    Option::None
}

/// A matching `FunEnd` never stands before the scan's start.
pub proof fn lemma_find_fun_end_ge(ops: Seq<OpCode>, i: int, depth: nat)
    ensures
        match find_fun_end(ops, i, depth) {
            Option::Some(j) => j >= i,
            Option::None => true,
        },
    decreases ops.len() - i,
{
    if 0 <= i < ops.len() {
        match ops[i] {
            OpCode::FunBegin => lemma_find_fun_end_ge(ops, i + 1, depth + 1),
            OpCode::FunEnd => {
                if depth != 0 {
                    lemma_find_fun_end_ge(ops, i + 1, (depth - 1) as nat);
                }
            },
            _ => lemma_find_fun_end_ge(ops, i + 1, depth),
        }
    }
}

/// The function records that the pre-pass reads out of the stream's
/// `FunBegin ... FunEnd` blocks, in stream order: name, variable table and
/// return type from the three meta-opcodes, the body starting right after
/// them. `None` when a block is malformed or unterminated.
pub open spec fn scan_funcs(ops: Seq<OpCode>, i: int) -> Option<Seq<FuncV>>
    decreases ops.len() - i,
{
    if i >= ops.len() {
        Option::Some(Seq::empty())
    } else {
        match ops[i] {
            OpCode::FunBegin => {
                if i + 4 <= ops.len() {
                    match (ops[i + 1], ops[i + 2], ops[i + 3]) {
                        (
                            OpCode::FunName { name },
                            OpCode::LocalVarTable { typ: vars, argsCount },
                            OpCode::FunReturn { typ: ret },
                        ) => {
                            if argsCount > vars.len() {
                                Option::None
                            } else {
                                let fv = FuncV {
                                    sig: spec_sig(
                                        name@,
                                        meta_types(vars@.subrange(0, argsCount as int)),
                                    ),
                                    args: meta_types(vars@.subrange(0, argsCount as int)),
                                    locals: meta_types(vars@),
                                    ret: match ret {
                                        Option::None => Option::None,
                                        Option::Some(t) => Option::Some(dt_view(t)),
                                    },
                                    body: FuncBodyV::Bytecode(i + 4),
                                };
                                match find_fun_end(ops, i + 1, 0) {
                                    Option::None => Option::None,
                                    Option::Some(j) => {
                                        if j < i || j >= ops.len() {
                                            Option::None
                                        } else {
                                            match scan_funcs(ops, j + 1) {
                                                Option::None => Option::None,
                                                Option::Some(rest) => Option::Some(
                                                    seq![fv] + rest,
                                                ),
                                            }
                                        }
                                    },
                                }
                            }
                        },
                        _ => Option::None,
                    }
                } else {
                    Option::None
                }
            },
            _ => scan_funcs(ops, i + 1),
        }
    }
}

/// Populate the registry from the stream's function blocks, as the pre-pass
/// that `evaluate` runs before execution. Returns false on a malformed
/// block; on success the registry has grown by exactly the scanned records.
#[verifier::loop_isolation(false)]
#[verifier::rlimit(60)]
pub fn registerFunctions(ops: &Vec<OpCode>, vm: &mut VirtualMachine) -> (r: bool)
    ensures
        final(vm).stack == old(vm).stack,
        final(vm).heap == old(vm).heap,
        final(vm).output == old(vm).output,
        old(vm).wf() ==> final(vm).wf(),
        match scan_funcs(ops@, 0) {
            Option::None => r == false,
            Option::Some(fs) => r == true && funcs_view(final(vm).functions@) == funcs_view(
                old(vm).functions@,
            ) + fs,
        },
{
    let ghost n0 = old(vm).functions@.len() as int;
    let len = ops.len();
    let mut q: usize = 0;
    proof {
        assert(funcs_view(vm.functions@).skip(n0) =~= Seq::<FuncV>::empty());
    }
    while q < len
        invariant
            q <= len,
            len == ops@.len(),
            vm.stack == old(vm).stack,
            vm.heap == old(vm).heap,
            vm.output == old(vm).output,
            old(vm).wf() ==> vm.wf(),
            n0 <= vm.functions@.len(),
            vm.functions@.subrange(0, n0) == old(vm).functions@,
            match scan_funcs(ops@, q as int) {
                Option::None => scan_funcs(ops@, 0) is None,
                Option::Some(rest) => scan_funcs(ops@, 0) == Option::Some(
                    funcs_view(vm.functions@).skip(n0) + rest,
                ),
            },
        decreases len - q,
    {
        let isBegin = match &ops[q] {
            OpCode::FunBegin => true,
            _ => false,
        };
        if !isBegin {
            proof {
                assert(scan_funcs(ops@, q as int) == scan_funcs(ops@, q + 1 as int));
            }
            q = q + 1;
        } else {
            if len - q < 4 {
                return false;
            }
            let name: String = match &ops[q + 1] {
                OpCode::FunName { name } => name.clone(),
                _ => {
                    return false;
                },
            };
            let argc: usize;
            match &ops[q + 2] {
                OpCode::LocalVarTable { typ: _, argsCount } => {
                    argc = *argsCount;
                },
                _ => {
                    return false;
                },
            }
            let sig: String;
            let mut table: Vec<VariableMetadata> = Vec::new();
            match &ops[q + 2] {
                OpCode::LocalVarTable { typ: vars, argsCount: _ } => {
                    if argc > vars.len() {
                        return false;
                    }
                    let m = vars.len();
                    let mut w: usize = 0;
                    while w < m
                        invariant
                            w <= m,
                            m == vars@.len(),
                            table@.len() == w,
                            forall|u: int| 0 <= u < w ==> table@[u].typ@ == vars@[u].typ@,
                        decreases m - w,
                    {
                        table.push(
                            VariableMetadata {
                                name: vars[w].name.clone(),
                                typ: vars[w].typ.duplicate(),
                            },
                        );
                        w = w + 1;
                    }
                    proof {
                        assert(meta_types(table@) =~= meta_types(vars@));
                        assert(table@.subrange(0, argc as int) =~= table@.subrange(0, argc as int));
                        assert(meta_types(table@.subrange(0, argc as int)) =~= meta_types(
                            vars@.subrange(0, argc as int),
                        ));
                    }
                    sig = genFunNameMeta(&name, vars, argc);
                },
                _ => {
                    return false;
                },
            }
            let ret: Option<DataType> = match &ops[q + 3] {
                OpCode::FunReturn { typ } => match typ {
                    Option::None => Option::None,
                    Option::Some(t) => Option::Some(t.duplicate()),
                },
                _ => {
                    return false;
                },
            };
            let j: usize;
            match findFunEnd(ops, q + 1) {
                Option::None => {
                    return false;
                },
                Option::Some(jj) => {
                    j = jj;
                },
            }
            proof {
                lemma_find_fun_end_ge(ops@, q + 1 as int, 0);
            }
            let f = Func {
                encodedName: sig,
                argAmount: argc,
                varTable: table,
                returnType: ret,
                body: FuncBody::Bytecode { start: q + 4 },
            };
            let ghost fsBefore = funcs_view(vm.functions@);
            let ghost fvG = f@;
            vm.register(f);
            proof {
                assert(funcs_view(vm.functions@) =~= fsBefore.push(fvG));
                assert(vm.functions@.subrange(0, n0) =~= old(vm).functions@);
                assert(funcs_view(vm.functions@).skip(n0) =~= fsBefore.skip(n0).push(fvG));
                assert(match scan_funcs(ops@, q as int) {
                    Option::None => true,
                    Option::Some(rest) => {
                        &&& rest.len() >= 1
                        &&& rest[0] == fvG
                        &&& scan_funcs(ops@, j + 1 as int) == Option::Some(rest.drop_first())
                        &&& fsBefore.skip(n0).push(fvG) + rest.drop_first() =~= fsBefore.skip(n0)
                            + rest
                    },
                });
            }
            q = j + 1;
        }
    }
    proof {
        match scan_funcs(ops@, 0) {
            Option::None => {},
            Option::Some(fs) => {
                assert(funcs_view(vm.functions@).skip(n0) + Seq::<FuncV>::empty() =~= funcs_view(
                    vm.functions@,
                ).skip(n0));
                assert(funcs_view(old(vm).functions@) + funcs_view(vm.functions@).skip(n0)
                    =~= funcs_view(vm.functions@));
            },
        }
    }
    true
}

/// The zero values of a run of declared types.
pub open spec fn defaults_of(ts: Seq<DataTypeV>) -> Seq<Value> {
    Seq::new(ts.len(), |i: int| Value::default_of_spec(ts[i]))
}

/// Run a whole program: register its function blocks, build the root frame
/// with the declared top-level locals set to their zero values, and execute
/// from the first instruction. The result and the machine's final stack,
/// heap and output are exactly those of the small-step semantics from that
/// starting configuration; a malformed function block is reported without
/// touching the machine's stack, heap or output.
pub fn evaluate(program: Vec<OpCode>, localTypes: Vec<DataType>, vm: &mut VirtualMachine) -> (r:
    Result<RunOutcome, VmError>)
    requires
        old(vm).wf(),
    ensures
        match scan_funcs(program@, 0) {
            Option::None => {
                &&& r == Result::<RunOutcome, VmError>::Err(VmError::MalformedFunction)
                &&& final(vm).stack == old(vm).stack
                &&& final(vm).heap == old(vm).heap
                &&& final(vm).output == old(vm).output
            },
            Option::Some(fs) => ({
                let fns = funcs_view(old(vm).functions@) + fs;
                let st0 = StV {
                    ip: 0,
                    stack: old(vm).stack@,
                    frames: seq![
                        FrameV { locals: defaults_of(dt_view_seq(localTypes@)), ret: 0 },
                    ],
                    heap: objs_view(old(vm).heap@),
                    out: out_view(old(vm).output@),
                };
                match r {
                    Result::Ok(RunOutcome::Done) => exists|n: nat, fin: StV|
                        (run_n(program@, fns, st0, n) == RunRes::DoneR(fin)
                            && fin.stack == final(vm).stack@
                            && fin.heap == objs_view(final(vm).heap@)
                            && fin.out == out_view(final(vm).output@)),
                    Result::Ok(RunOutcome::NeedFloat { op, a, b }) => exists|n: nat, fin: StV|
                        (run_n(program@, fns, st0, n) == (RunRes::PauseR { st: fin, op, a, b })
                            && fin.stack == final(vm).stack@
                            && fin.heap == objs_view(final(vm).heap@)
                            && fin.out == out_view(final(vm).output@)),
                    Result::Ok(RunOutcome::Exhausted) => exists|fin: StV|
                        (run_n(program@, fns, st0, u64::MAX as nat) == RunRes::More(fin)
                            && fin.stack == final(vm).stack@
                            && fin.heap == objs_view(final(vm).heap@)
                            && fin.out == out_view(final(vm).output@)),
                    Result::Err(e) => exists|n: nat|
                        run_n(program@, fns, st0, n) == RunRes::Abort(e),
                }
            }),
        },
{
    if !registerFunctions(&program, vm) {
        return Result::Err(VmError::MalformedFunction);
    }
    let mut rootLocals: Vec<Value> = Vec::new();
    let n = localTypes.len();
    let mut i: usize = 0;
    while i < n
        invariant
            i <= n,
            n == localTypes@.len(),
            rootLocals@.len() == i,
            forall|u: int|
                0 <= u < i ==> rootLocals@[u] == Value::default_of_spec(dt_view(localTypes@[u])),
        decreases n - i,
    {
        rootLocals.push(Value::defaultOf(&localTypes[i]));
        i = i + 1;
    }
    let mut frames: Vec<StackFrame> = Vec::new();
    frames.push(StackFrame { localVariables: rootLocals, name: Option::None, returnIp: 0 });
    let mut seek = SeekableOpcodes { opCodes: program, index: 0 };
    proof {
        lemma_dt_view_seq(localTypes@);
        assert(frames@.last()@.locals =~= defaults_of(dt_view_seq(localTypes@)));
        assert(frames_view(frames@) =~= seq![
            FrameV { locals: defaults_of(dt_view_seq(localTypes@)), ret: 0 },
        ]);
    }
    let r = run(&mut seek, vm, &mut frames, u64::MAX);
    proof {
        let fs = scan_funcs(program@, 0)->0;
        let fnsE = funcs_view(old(vm).functions@) + fs;
        let st0E = StV {
            ip: 0,
            stack: old(vm).stack@,
            frames: seq![FrameV { locals: defaults_of(dt_view_seq(localTypes@)), ret: 0 }],
            heap: objs_view(old(vm).heap@),
            out: out_view(old(vm).output@),
        };
        let fin = cfg_of(seek, *vm, frames@);
        match r {
            Result::Ok(RunOutcome::Done) => {
                assert(exists|n: nat| run_n(program@, fnsE, st0E, n) == RunRes::DoneR(fin));
                let n0 = choose|n: nat| run_n(program@, fnsE, st0E, n) == RunRes::DoneR(fin);
                assert(run_n(program@, fnsE, st0E, n0) == RunRes::DoneR(fin) && fin.stack
                    == vm.stack@ && fin.heap == objs_view(vm.heap@) && fin.out == out_view(
                    vm.output@,
                ));
            },
            Result::Ok(RunOutcome::NeedFloat { op, a, b }) => {
                assert(exists|n: nat|
                    run_n(program@, fnsE, st0E, n) == (RunRes::PauseR { st: fin, op, a, b }));
                let n0 = choose|n: nat|
                    run_n(program@, fnsE, st0E, n) == (RunRes::PauseR { st: fin, op, a, b });
                assert(run_n(program@, fnsE, st0E, n0) == (RunRes::PauseR { st: fin, op, a, b })
                    && fin.stack == vm.stack@ && fin.heap == objs_view(vm.heap@) && fin.out
                    == out_view(vm.output@));
            },
            Result::Ok(RunOutcome::Exhausted) => {
                assert(run_n(program@, fnsE, st0E, u64::MAX as nat) == RunRes::More(fin)
                    && fin.stack == vm.stack@ && fin.heap == objs_view(vm.heap@) && fin.out
                    == out_view(vm.output@));
            },
            Result::Err(e) => {
                assert(exists|n: nat| run_n(program@, fnsE, st0E, n) == RunRes::Abort(e));
            },
        }
    }
    r
}

/// The configuration that a cursor, machine and frame stack stand for.
pub open spec fn cfg_of(opCodes: SeekableOpcodes, vm: VirtualMachine, frames: Seq<StackFrame>) -> StV {
    StV {
        ip: opCodes.index as int,
        stack: vm.stack@,
        frames: frames_view(frames),
        heap: objs_view(vm.heap@),
        out: out_view(vm.output@),
    }
}

/// The abort shape of `run`'s contract: some number of steps reaches the
/// configuration at which the next step aborts with `e`, and that
/// configuration's output, heap and frames are the machine's final ones.
pub open spec fn aborts_at(
    ops: Seq<OpCode>,
    fns: Seq<FuncV>,
    st0: StV,
    e: VmError,
    outF: Seq<OutItemV>,
    heapF: Seq<ObjV>,
    framesF: Seq<FrameV>,
) -> bool {
    exists|n: nat, c: StV|
        #![trigger run_n(ops, fns, st0, n), step(ops, fns, c)]
        (run_n(ops, fns, st0, n) == RunRes::More(c) && step(ops, fns, c) == StepRes::Abort(e)
            && c.out == outF && c.heap == heapF && c.frames == framesF)
}

/// Supplies one witness for `aborts_at`.
proof fn witness_abort(
    ops: Seq<OpCode>,
    fns: Seq<FuncV>,
    st0: StV,
    k: nat,
    c: StV,
    e: VmError,
    outF: Seq<OutItemV>,
    heapF: Seq<ObjV>,
    framesF: Seq<FrameV>,
)
    requires
        run_n(ops, fns, st0, k) == RunRes::More(c),
        step(ops, fns, c) == StepRes::Abort(e),
        c.out == outF,
        c.heap == heapF,
        c.frames == framesF,
    ensures
        aborts_at(ops, fns, st0, e, outF, heapF, framesF),
{
}

/// Execute from the cursor until the program is done, the host must supply
/// a floating-point result, the machine aborts, or the step budget runs
/// out: the result and the final state are exactly those of some number of
/// semantic steps from the starting configuration; on an abort the
/// machine's final output, heap and frames are those of the configuration
/// the abort happened at. `frames` is the activation stack; its last entry
/// is the current frame and its first the root.
#[verifier::loop_isolation(false)]
#[verifier::rlimit(100)]
pub fn run(
    opCodes: &mut SeekableOpcodes,
    vm: &mut VirtualMachine,
    frames: &mut Vec<StackFrame>,
    maxSteps: u64,
) -> (r: Result<RunOutcome, VmError>)
    requires
        old(frames)@.len() >= 1,
        old(vm).wf(),
    ensures
        final(opCodes).opCodes == old(opCodes).opCodes,
        final(vm).functions == old(vm).functions,
        ({
            let ops = old(opCodes).opCodes@;
            let fns = funcs_view(old(vm).functions@);
            let st0 = cfg_of(*old(opCodes), *old(vm), old(frames)@);
            let stF = cfg_of(*final(opCodes), *final(vm), final(frames)@);
            match r {
                Result::Ok(RunOutcome::Done) => exists|n: nat|
                    run_n(ops, fns, st0, n) == RunRes::DoneR(stF),
                Result::Ok(RunOutcome::NeedFloat { op, a, b }) => exists|n: nat|
                    run_n(ops, fns, st0, n) == (RunRes::PauseR { st: stF, op, a, b }),
                Result::Ok(RunOutcome::Exhausted) => run_n(ops, fns, st0, maxSteps as nat)
                    == RunRes::More(stF),
                Result::Err(e) => (exists|n: nat| run_n(ops, fns, st0, n) == RunRes::Abort(e))
                    && aborts_at(
                    ops,
                    fns,
                    st0,
                    e,
                    out_view(final(vm).output@),
                    objs_view(final(vm).heap@),
                    frames_view(final(frames)@),
                ),
            }
        }),
        r is Ok ==> final(frames)@.len() >= 1,
{
    let ghost ops = old(opCodes).opCodes@;
    let ghost fns = funcs_view(old(vm).functions@);
    let ghost st0 = cfg_of(*old(opCodes), *old(vm), old(frames)@);
    let ghost mut k: nat = 0;
    let mut stepsLeft: u64 = maxSteps;
    loop
        invariant
            frames@.len() >= 1,
            opCodes.opCodes == old(opCodes).opCodes,
            vm.functions == old(vm).functions,
            vm.wf(),
            k == maxSteps - stepsLeft,
            run_n(ops, fns, st0, k) == RunRes::More(cfg_of(*opCodes, *vm, frames@)),
        decreases stepsLeft,
    {
        if stepsLeft == 0 {
            return Result::Ok(RunOutcome::Exhausted);
        }
        stepsLeft = stepsLeft - 1;
        let ghost stA = cfg_of(*opCodes, *vm, frames@);
        proof {
            lemma_run_n_snoc(ops, fns, st0, k, stA);
        }
        let len = opCodes.opCodes.len();
        if opCodes.index >= len {
            proof {
                assert(step(ops, fns, stA) == StepRes::DoneR(stA));
            }
            return Result::Ok(RunOutcome::Done);
        }
        let i = opCodes.index;
        let ghost frameA = frames_view(frames@).last();
        proof {
            assert(frames_view(frames@)[frames@.len() - 1] == frames@[frames@.len() - 1]@);
        }
        opCodes.index = i + 1;
        match &opCodes.opCodes[i] {
            OpCode::FunBegin => {
                match findFunEnd(&opCodes.opCodes, i + 1) {
                    Option::None => {
                        proof {
                            witness_abort(
                                ops,
                                fns,
                                st0,
                                k,
                                stA,
                                VmError::MissingFunEnd,
                                out_view(vm.output@),
                                objs_view(vm.heap@),
                                frames_view(frames@),
                            );
                        }
                        return Result::Err(VmError::MissingFunEnd);
                    },
                    Option::Some(j) => {
                        opCodes.index = j + 1;
                        proof {
                            assert(step(ops, fns, stA) == StepRes::Next(
                                cfg_of(*opCodes, *vm, frames@),
                            ));
                            k = k + 1;
                        }
                    },
                }
            },
            OpCode::FunName { .. } => {
                proof {
                    witness_abort(
                        ops,
                        fns,
                        st0,
                        k,
                        stA,
                        VmError::ReservedOpcode,
                        out_view(vm.output@),
                        objs_view(vm.heap@),
                        frames_view(frames@),
                    );
                }
                return Result::Err(VmError::ReservedOpcode);
            },
            OpCode::LocalVarTable { .. } => {
                proof {
                    witness_abort(
                        ops,
                        fns,
                        st0,
                        k,
                        stA,
                        VmError::ReservedOpcode,
                        out_view(vm.output@),
                        objs_view(vm.heap@),
                        frames_view(frames@),
                    );
                }
                return Result::Err(VmError::ReservedOpcode);
            },
            OpCode::FunReturn { .. } => {
                proof {
                    witness_abort(
                        ops,
                        fns,
                        st0,
                        k,
                        stA,
                        VmError::ReservedOpcode,
                        out_view(vm.output@),
                        objs_view(vm.heap@),
                        frames_view(frames@),
                    );
                }
                return Result::Err(VmError::ReservedOpcode);
            },
            OpCode::FunEnd => {
                proof {
                    witness_abort(
                        ops,
                        fns,
                        st0,
                        k,
                        stA,
                        VmError::ReservedOpcode,
                        out_view(vm.output@),
                        objs_view(vm.heap@),
                        frames_view(frames@),
                    );
                }
                return Result::Err(VmError::ReservedOpcode);
            },
            OpCode::F2I => {
                match vm.stack.pop() {
                    Option::None => {
                        proof {
                            witness_abort(
                                ops,
                                fns,
                                st0,
                                k,
                                stA,
                                VmError::StackUnderflow,
                                out_view(vm.output@),
                                objs_view(vm.heap@),
                                frames_view(frames@),
                            );
                        }
                        return Result::Err(VmError::StackUnderflow);
                    },
                    Option::Some(v) => {
                        match v {
                            Value::Flo(b) => {
                                let n = crate::float_bits::f2iTrunc(b);
                                vm.stack.push(Value::Num(n));
                                proof {
                                    assert(step(ops, fns, stA) == StepRes::Next(
                                        cfg_of(*opCodes, *vm, frames@),
                                    ));
                                    k = k + 1;
                                }
                            },
                            _ => {
                                proof {
                                    witness_abort(
                                        ops,
                                        fns,
                                        st0,
                                        k,
                                        stA,
                                        VmError::TypeMismatch,
                                        out_view(vm.output@),
                                        objs_view(vm.heap@),
                                        frames_view(frames@),
                                    );
                                }
                                return Result::Err(VmError::TypeMismatch);
                            },
                        }
                    },
                }
            },
            OpCode::I2F => {
                match vm.stack.pop() {
                    Option::None => {
                        proof {
                            witness_abort(
                                ops,
                                fns,
                                st0,
                                k,
                                stA,
                                VmError::StackUnderflow,
                                out_view(vm.output@),
                                objs_view(vm.heap@),
                                frames_view(frames@),
                            );
                        }
                        return Result::Err(VmError::StackUnderflow);
                    },
                    Option::Some(v) => {
                        match v {
                            Value::Num(n) => {
                                if -0x20000000000000 < n && n < 0x20000000000000 {
                                    let b = crate::float_bits::i2fSmall(n);
                                    vm.stack.push(Value::Flo(b));
                                    proof {
                                        assert(step(ops, fns, stA) == StepRes::Next(
                                            cfg_of(*opCodes, *vm, frames@),
                                        ));
                                        k = k + 1;
                                    }
                                } else {
                                    return Result::Ok(
                                        RunOutcome::NeedFloat {
                                            op: FloatOp::I2F,
                                            a: v,
                                            b: Value::Num(0),
                                        },
                                    );
                                }
                            },
                            _ => {
                                proof {
                                    witness_abort(
                                        ops,
                                        fns,
                                        st0,
                                        k,
                                        stA,
                                        VmError::TypeMismatch,
                                        out_view(vm.output@),
                                        objs_view(vm.heap@),
                                        frames_view(frames@),
                                    );
                                }
                                return Result::Err(VmError::TypeMismatch);
                            },
                        }
                    },
                }
            },
            OpCode::PushInt(v) => {
                vm.stack.push(Value::Num(*v));
                proof {
                    assert(step(ops, fns, stA) == StepRes::Next(cfg_of(*opCodes, *vm, frames@)));
                    k = k + 1;
                }
            },
            OpCode::PushFloat(b) => {
                vm.stack.push(Value::Flo(*b));
                proof {
                    assert(step(ops, fns, stA) == StepRes::Next(cfg_of(*opCodes, *vm, frames@)));
                    k = k + 1;
                }
            },
            OpCode::PushBool(b) => {
                vm.stack.push(Value::Bol(*b));
                proof {
                    assert(step(ops, fns, stA) == StepRes::Next(cfg_of(*opCodes, *vm, frames@)));
                    k = k + 1;
                }
            },
            OpCode::PushChar(c) => {
                vm.stack.push(Value::Chr(*c));
                proof {
                    assert(step(ops, fns, stA) == StepRes::Next(cfg_of(*opCodes, *vm, frames@)));
                    k = k + 1;
                }
            },
            OpCode::Pop => {
                match vm.stack.pop() {
                    Option::None => {
                        proof {
                            witness_abort(
                                ops,
                                fns,
                                st0,
                                k,
                                stA,
                                VmError::StackUnderflow,
                                out_view(vm.output@),
                                objs_view(vm.heap@),
                                frames_view(frames@),
                            );
                        }
                        return Result::Err(VmError::StackUnderflow);
                    },
                    Option::Some(_) => {
                        proof {
                            assert(step(ops, fns, stA) == StepRes::Next(
                                cfg_of(*opCodes, *vm, frames@),
                            ));
                            k = k + 1;
                        }
                    },
                }
            },
            OpCode::Dup => {
                let l = vm.stack.len();
                if l == 0 {
                    proof {
                        witness_abort(
                            ops,
                            fns,
                            st0,
                            k,
                            stA,
                            VmError::StackUnderflow,
                            out_view(vm.output@),
                            objs_view(vm.heap@),
                            frames_view(frames@),
                        );
                    }
                    return Result::Err(VmError::StackUnderflow);
                }
                let v = vm.stack[l - 1];
                vm.stack.push(v);
                proof {
                    assert(step(ops, fns, stA) == StepRes::Next(cfg_of(*opCodes, *vm, frames@)));
                    k = k + 1;
                }
            },
            OpCode::PushLocal { index } => {
                let ix = *index;
                let fl = frames.len();
                if ix >= frames[fl - 1].localVariables.len() {
                    proof {
                        witness_abort(
                            ops,
                            fns,
                            st0,
                            k,
                            stA,
                            VmError::BadLocalIndex,
                            out_view(vm.output@),
                            objs_view(vm.heap@),
                            frames_view(frames@),
                        );
                    }
                    return Result::Err(VmError::BadLocalIndex);
                }
                let v = frames[fl - 1].localVariables[ix];
                vm.stack.push(v);
                proof {
                    assert(step(ops, fns, stA) == StepRes::Next(cfg_of(*opCodes, *vm, frames@)));
                    k = k + 1;
                }
            },
            OpCode::SetLocal { index, .. } => {
                let ix = *index;
                match vm.stack.pop() {
                    Option::None => {
                        proof {
                            witness_abort(
                                ops,
                                fns,
                                st0,
                                k,
                                stA,
                                VmError::StackUnderflow,
                                out_view(vm.output@),
                                objs_view(vm.heap@),
                                frames_view(frames@),
                            );
                        }
                        return Result::Err(VmError::StackUnderflow);
                    },
                    Option::Some(v) => {
                        let fl = frames.len();
                        if ix >= frames[fl - 1].localVariables.len() {
                            proof {
                                witness_abort(
                                    ops,
                                    fns,
                                    st0,
                                    k,
                                    stA,
                                    VmError::BadLocalIndex,
                                    out_view(vm.output@),
                                    objs_view(vm.heap@),
                                    frames_view(frames@),
                                );
                            }
                            return Result::Err(VmError::BadLocalIndex);
                        }
                        frames[fl - 1].localVariables[ix] = v;
                        proof {
                            assert(frames_view(frames@) =~= stA.frames.update(
                                frames@.len() - 1,
                                FrameV {
                                    locals: frameA.locals.update(ix as int, v),
                                    ret: frameA.ret,
                                },
                            ));
                            k = k + 1;
                        }
                    },
                }
            },
            OpCode::Inc { index, .. } => {
                let ix = *index;
                let fl = frames.len();
                if ix >= frames[fl - 1].localVariables.len() {
                    proof {
                        witness_abort(
                            ops,
                            fns,
                            st0,
                            k,
                            stA,
                            VmError::BadLocalIndex,
                            out_view(vm.output@),
                            objs_view(vm.heap@),
                            frames_view(frames@),
                        );
                    }
                    return Result::Err(VmError::BadLocalIndex);
                }
                let cur = frames[fl - 1].localVariables[ix];
                match cur {
                    Value::Num(n) => {
                        frames[fl - 1].localVariables[ix] = Value::Num(n.wrapping_add(1));
                        proof {
                            assert(frames_view(frames@) =~= stA.frames.update(
                                frames@.len() - 1,
                                FrameV {
                                    locals: frameA.locals.update(
                                        ix as int,
                                        Value::Num(vstd::wrapping::i64_specs::wrapping_add(n, 1)),
                                    ),
                                    ret: frameA.ret,
                                },
                            ));
                            k = k + 1;
                        }
                    },
                    Value::Flo(_) => {
                        proof {
                            witness_abort(
                                ops,
                                fns,
                                st0,
                                k,
                                stA,
                                VmError::UnsupportedFloat,
                                out_view(vm.output@),
                                objs_view(vm.heap@),
                                frames_view(frames@),
                            );
                        }
                        return Result::Err(VmError::UnsupportedFloat);
                    },
                    _ => {
                        proof {
                            witness_abort(
                                ops,
                                fns,
                                st0,
                                k,
                                stA,
                                VmError::TypeMismatch,
                                out_view(vm.output@),
                                objs_view(vm.heap@),
                                frames_view(frames@),
                            );
                        }
                        return Result::Err(VmError::TypeMismatch);
                    },
                }
            },
            OpCode::Dec { index, .. } => {
                let ix = *index;
                let fl = frames.len();
                if ix >= frames[fl - 1].localVariables.len() {
                    proof {
                        witness_abort(
                            ops,
                            fns,
                            st0,
                            k,
                            stA,
                            VmError::BadLocalIndex,
                            out_view(vm.output@),
                            objs_view(vm.heap@),
                            frames_view(frames@),
                        );
                    }
                    return Result::Err(VmError::BadLocalIndex);
                }
                let cur = frames[fl - 1].localVariables[ix];
                match cur {
                    Value::Num(n) => {
                        frames[fl - 1].localVariables[ix] = Value::Num(n.wrapping_sub(1));
                        proof {
                            assert(frames_view(frames@) =~= stA.frames.update(
                                frames@.len() - 1,
                                FrameV {
                                    locals: frameA.locals.update(
                                        ix as int,
                                        Value::Num(vstd::wrapping::i64_specs::wrapping_sub(n, 1)),
                                    ),
                                    ret: frameA.ret,
                                },
                            ));
                            k = k + 1;
                        }
                    },
                    Value::Flo(_) => {
                        proof {
                            witness_abort(
                                ops,
                                fns,
                                st0,
                                k,
                                stA,
                                VmError::UnsupportedFloat,
                                out_view(vm.output@),
                                objs_view(vm.heap@),
                                frames_view(frames@),
                            );
                        }
                        return Result::Err(VmError::UnsupportedFloat);
                    },
                    _ => {
                        proof {
                            witness_abort(
                                ops,
                                fns,
                                st0,
                                k,
                                stA,
                                VmError::TypeMismatch,
                                out_view(vm.output@),
                                objs_view(vm.heap@),
                                frames_view(frames@),
                            );
                        }
                        return Result::Err(VmError::TypeMismatch);
                    },
                }
            },
            OpCode::Jmp { offset, jmpType } => {
                let off = *offset;
                let taken: bool;
                match jmpType {
                    JmpType::Unconditional => {
                        taken = true;
                    },
                    JmpType::IfTrue => {
                        match vm.stack.pop() {
                            Option::None => {
                                proof {
                                    witness_abort(
                                        ops,
                                        fns,
                                        st0,
                                        k,
                                        stA,
                                        VmError::StackUnderflow,
                                        out_view(vm.output@),
                                        objs_view(vm.heap@),
                                        frames_view(frames@),
                                    );
                                }
                                return Result::Err(VmError::StackUnderflow);
                            },
                            Option::Some(Value::Bol(bb)) => {
                                taken = bb;
                            },
                            Option::Some(_) => {
                                proof {
                                    witness_abort(
                                        ops,
                                        fns,
                                        st0,
                                        k,
                                        stA,
                                        VmError::TypeMismatch,
                                        out_view(vm.output@),
                                        objs_view(vm.heap@),
                                        frames_view(frames@),
                                    );
                                }
                                return Result::Err(VmError::TypeMismatch);
                            },
                        }
                    },
                    JmpType::IfFalse => {
                        match vm.stack.pop() {
                            Option::None => {
                                proof {
                                    witness_abort(
                                        ops,
                                        fns,
                                        st0,
                                        k,
                                        stA,
                                        VmError::StackUnderflow,
                                        out_view(vm.output@),
                                        objs_view(vm.heap@),
                                        frames_view(frames@),
                                    );
                                }
                                return Result::Err(VmError::StackUnderflow);
                            },
                            Option::Some(Value::Bol(bb)) => {
                                taken = !bb;
                            },
                            Option::Some(_) => {
                                proof {
                                    witness_abort(
                                        ops,
                                        fns,
                                        st0,
                                        k,
                                        stA,
                                        VmError::TypeMismatch,
                                        out_view(vm.output@),
                                        objs_view(vm.heap@),
                                        frames_view(frames@),
                                    );
                                }
                                return Result::Err(VmError::TypeMismatch);
                            },
                        }
                    },
                }
                if taken {
                    let t: i128 = i as i128 + 1 + off as i128;
                    if t < 0 || t > len as i128 {
                        proof {
                            witness_abort(
                                ops,
                                fns,
                                st0,
                                k,
                                stA,
                                VmError::BadJump,
                                out_view(vm.output@),
                                objs_view(vm.heap@),
                                frames_view(frames@),
                            );
                        }
                        return Result::Err(VmError::BadJump);
                    }
                    opCodes.index = t as usize;
                }
                proof {
                    assert(step(ops, fns, stA) == StepRes::Next(cfg_of(*opCodes, *vm, frames@)));
                    k = k + 1;
                }
            },
            OpCode::Call { encoded } => {
                match vm.resolve(encoded) {
                    Option::None => {
                        proof {
                            witness_abort(
                                ops,
                                fns,
                                st0,
                                k,
                                stA,
                                VmError::UnknownFunction,
                                out_view(vm.output@),
                                objs_view(vm.heap@),
                                frames_view(frames@),
                            );
                        }
                        return Result::Err(VmError::UnknownFunction);
                    },
                    Option::Some(fx) => {
                        let ghost fv = vm.functions@[fx as int]@;
                        let argc = vm.functions[fx].argAmount;
                        proof {
                            assert(vm.functions@[fx as int].wf());
                            assert(fv.args.len() == argc);
                        }
                        let sl = vm.stack.len();
                        if sl < argc {
                            proof {
                                witness_abort(
                                    ops,
                                    fns,
                                    st0,
                                    k,
                                    stA,
                                    VmError::StackUnderflow,
                                    out_view(vm.output@),
                                    objs_view(vm.heap@),
                                    frames_view(frames@),
                                );
                            }
                            return Result::Err(VmError::StackUnderflow);
                        }
                        let mut argvals: Vec<Value> = Vec::new();
                        let mut q: usize = 0;
                        while q < argc
                            invariant
                                q <= argc,
                                argc <= sl,
                                sl == vm.stack@.len(),
                                argvals@ == vm.stack@.subrange(
                                    sl - argc,
                                    sl - argc + q,
                                ),
                            decreases argc - q,
                        {
                            argvals.push(vm.stack[sl - argc + q]);
                            proof {
                                assert(argvals@ =~= vm.stack@.subrange(
                                    sl - argc,
                                    sl - argc + q + 1,
                                ));
                            }
                            q = q + 1;
                        }
                        let mut w: usize = 0;
                        while w < argc
                            invariant
                                w <= argc,
                                argc <= sl,
                                vm.stack@ == stA.stack.subrange(0, sl - w),
                                vm.functions == old(vm).functions,
                                vm.wf(),
                                objs_view(vm.heap@) == stA.heap,
                                out_view(vm.output@) == stA.out,
                            decreases argc - w,
                        {
                            vm.stack.pop();
                            proof {
                                assert(vm.stack@ =~= stA.stack.subrange(0, sl - w - 1));
                            }
                            w = w + 1;
                        }
                        let isNative: bool;
                        let nid: NativeId;
                        let bstart: usize;
                        match &vm.functions[fx].body {
                            FuncBody::Native { id } => {
                                isNative = true;
                                nid = *id;
                                bstart = 0;
                            },
                            FuncBody::Bytecode { start } => {
                                isNative = false;
                                nid = NativeId::PrintInt;
                                bstart = *start;
                            },
                        }
                        proof {
                            let argcI = fv.args.len() as int;
                            let argv = stA.stack.subrange(stA.stack.len() - argcI, stA.stack.len() as int);
                            let rest = stA.stack.subrange(0, stA.stack.len() - argcI);
                            assert(stA.ip == i as int);
                            assert(ops[i as int] is Call);
                            assert(lookup_fn(fns, ops[i as int]->Call_encoded@) == Option::Some(fv));
                            assert(stA.stack.len() >= argcI);
                            assert(argvals@ == argv);
                            assert(vm.stack@ == rest);
                            if isNative {
                                assert(fv.body == FuncBodyV::Native(nid));
                            }
                        }
                        if isNative {
                            match runNative(vm, nid, &argvals) {
                                Result::Ok(()) => {
                                    proof {
                                        assert(step(ops, fns, stA) == StepRes::Next(
                                            cfg_of(*opCodes, *vm, frames@),
                                        ));
                                        k = k + 1;
                                    }
                                },
                                Result::Err(e) => {
                                    proof {
                                        assert(step(ops, fns, stA) == StepRes::Abort(e));
                                    }
                                    proof {
                                        witness_abort(
                                            ops,
                                            fns,
                                            st0,
                                            k,
                                            stA,
                                            e,
                                            out_view(vm.output@),
                                            objs_view(vm.heap@),
                                            frames_view(frames@),
                                        );
                                    }
                                    return Result::Err(e);
                                },
                            }
                        } else {
                            let mut loc = argvals;
                            let vt = vm.functions[fx].varTable.len();
                            let mut w2: usize = argc;
                            while w2 < vt
                                invariant
                                    argc <= w2 <= vt,
                                    fx < vm.functions@.len(),
                                    vt == vm.functions@[fx as int].varTable@.len(),
                                    fv == vm.functions@[fx as int]@,
                                    loc@.len() == w2,
                                    loc@.subrange(0, argc as int) == stA.stack.subrange(
                                        sl - argc,
                                        sl as int,
                                    ),
                                    forall|u: int|
                                        argc <= u < w2 ==> loc@[u] == Value::default_of_spec(
                                            fv.locals[u],
                                        ),
                                decreases vt - w2,
                            {
                                let d = Value::defaultOf(&vm.functions[fx].varTable[w2].typ);
                                loc.push(d);
                                proof {
                                    assert(loc@.subrange(0, argc as int) =~= stA.stack.subrange(
                                        sl - argc,
                                        sl as int,
                                    ));
                                }
                                w2 = w2 + 1;
                            }
                            frames.push(
                                StackFrame {
                                    localVariables: loc,
                                    name: Option::None,
                                    returnIp: i + 1,
                                },
                            );
                            opCodes.index = bstart;
                            proof {
                                assert(fv.locals.len() == vt);
                                assert(frames@.last()@.locals =~= frame_locals(
                                    stA.stack.subrange(sl - argc, sl as int),
                                    fv.locals,
                                ));
                                assert(frames_view(frames@) =~= stA.frames.push(
                                    FrameV {
                                        locals: frame_locals(
                                            stA.stack.subrange(sl - argc, sl as int),
                                            fv.locals,
                                        ),
                                        ret: i + 1,
                                    },
                                ));
                                k = k + 1;
                            }
                        }
                    },
                }
            },
            OpCode::Return => {
                let fl = frames.len();
                if fl <= 1 {
                    return Result::Ok(RunOutcome::Done);
                }
                match frames.pop() {
                    Option::Some(fr) => {
                        opCodes.index = fr.returnIp;
                        proof {
                            assert(frames_view(frames@) =~= stA.frames.drop_last());
                            k = k + 1;
                        }
                    },
                    Option::None => {
                        proof {
                            assert(false);
                        }
                        return Result::Err(VmError::InvalidArgument);
                    },
                }
            },
            OpCode::Add(_) => {
                let l = vm.stack.len();
                if l < 2 {
                    proof {
                        witness_abort(
                            ops,
                            fns,
                            st0,
                            k,
                            stA,
                            VmError::StackUnderflow,
                            out_view(vm.output@),
                            objs_view(vm.heap@),
                            frames_view(frames@),
                        );
                    }
                    return Result::Err(VmError::StackUnderflow);
                }
                let b = vm.stack[l - 1];
                let a = vm.stack[l - 2];
                vm.stack.pop();
                vm.stack.pop();
                match (a, b) {
                    (Value::Num(x), Value::Num(y)) => {
                        vm.stack.push(Value::Num(x.wrapping_add(y)));
                        proof {
                            assert(step(ops, fns, stA) == StepRes::Next(
                                cfg_of(*opCodes, *vm, frames@),
                            ));
                            k = k + 1;
                        }
                    },
                    (Value::Flo(_), Value::Flo(_)) => {
                        return Result::Ok(RunOutcome::NeedFloat { op: FloatOp::Add, a, b });
                    },
                    _ => {
                        proof {
                            witness_abort(
                                ops,
                                fns,
                                st0,
                                k,
                                stA,
                                VmError::TypeMismatch,
                                out_view(vm.output@),
                                objs_view(vm.heap@),
                                frames_view(frames@),
                            );
                        }
                        return Result::Err(VmError::TypeMismatch);
                    },
                }
            },
            OpCode::Sub(_) => {
                let l = vm.stack.len();
                if l < 2 {
                    proof {
                        witness_abort(
                            ops,
                            fns,
                            st0,
                            k,
                            stA,
                            VmError::StackUnderflow,
                            out_view(vm.output@),
                            objs_view(vm.heap@),
                            frames_view(frames@),
                        );
                    }
                    return Result::Err(VmError::StackUnderflow);
                }
                let b = vm.stack[l - 1];
                let a = vm.stack[l - 2];
                vm.stack.pop();
                vm.stack.pop();
                match (a, b) {
                    (Value::Num(x), Value::Num(y)) => {
                        vm.stack.push(Value::Num(x.wrapping_sub(y)));
                        proof {
                            assert(step(ops, fns, stA) == StepRes::Next(
                                cfg_of(*opCodes, *vm, frames@),
                            ));
                            k = k + 1;
                        }
                    },
                    (Value::Flo(_), Value::Flo(_)) => {
                        return Result::Ok(RunOutcome::NeedFloat { op: FloatOp::Sub, a, b });
                    },
                    _ => {
                        proof {
                            witness_abort(
                                ops,
                                fns,
                                st0,
                                k,
                                stA,
                                VmError::TypeMismatch,
                                out_view(vm.output@),
                                objs_view(vm.heap@),
                                frames_view(frames@),
                            );
                        }
                        return Result::Err(VmError::TypeMismatch);
                    },
                }
            },
            OpCode::Mul(_) => {
                let l = vm.stack.len();
                if l < 2 {
                    proof {
                        witness_abort(
                            ops,
                            fns,
                            st0,
                            k,
                            stA,
                            VmError::StackUnderflow,
                            out_view(vm.output@),
                            objs_view(vm.heap@),
                            frames_view(frames@),
                        );
                    }
                    return Result::Err(VmError::StackUnderflow);
                }
                let b = vm.stack[l - 1];
                let a = vm.stack[l - 2];
                vm.stack.pop();
                vm.stack.pop();
                match (a, b) {
                    (Value::Num(x), Value::Num(y)) => {
                        vm.stack.push(Value::Num(x.wrapping_mul(y)));
                        proof {
                            assert(step(ops, fns, stA) == StepRes::Next(
                                cfg_of(*opCodes, *vm, frames@),
                            ));
                            k = k + 1;
                        }
                    },
                    (Value::Flo(_), Value::Flo(_)) => {
                        return Result::Ok(RunOutcome::NeedFloat { op: FloatOp::Mul, a, b });
                    },
                    _ => {
                        proof {
                            witness_abort(
                                ops,
                                fns,
                                st0,
                                k,
                                stA,
                                VmError::TypeMismatch,
                                out_view(vm.output@),
                                objs_view(vm.heap@),
                                frames_view(frames@),
                            );
                        }
                        return Result::Err(VmError::TypeMismatch);
                    },
                }
            },
            OpCode::Div(_) => {
                let l = vm.stack.len();
                if l < 2 {
                    proof {
                        witness_abort(
                            ops,
                            fns,
                            st0,
                            k,
                            stA,
                            VmError::StackUnderflow,
                            out_view(vm.output@),
                            objs_view(vm.heap@),
                            frames_view(frames@),
                        );
                    }
                    return Result::Err(VmError::StackUnderflow);
                }
                let b = vm.stack[l - 1];
                let a = vm.stack[l - 2];
                vm.stack.pop();
                vm.stack.pop();
                match (a, b) {
                    (Value::Num(_), Value::Num(_)) => {
                        return Result::Ok(RunOutcome::NeedFloat { op: FloatOp::Div, a, b });
                    },
                    (Value::Flo(_), Value::Flo(_)) => {
                        return Result::Ok(RunOutcome::NeedFloat { op: FloatOp::Div, a, b });
                    },
                    _ => {
                        proof {
                            witness_abort(
                                ops,
                                fns,
                                st0,
                                k,
                                stA,
                                VmError::TypeMismatch,
                                out_view(vm.output@),
                                objs_view(vm.heap@),
                                frames_view(frames@),
                            );
                        }
                        return Result::Err(VmError::TypeMismatch);
                    },
                }
            },
            OpCode::Equals(_) => {
                let l = vm.stack.len();
                if l < 2 {
                    proof {
                        witness_abort(
                            ops,
                            fns,
                            st0,
                            k,
                            stA,
                            VmError::StackUnderflow,
                            out_view(vm.output@),
                            objs_view(vm.heap@),
                            frames_view(frames@),
                        );
                    }
                    return Result::Err(VmError::StackUnderflow);
                }
                let b = vm.stack[l - 1];
                let a = vm.stack[l - 2];
                vm.stack.pop();
                vm.stack.pop();
                match (a, b) {
                    (Value::Num(x), Value::Num(y)) => {
                        vm.stack.push(Value::Bol(x == y));
                        proof {
                            assert(step(ops, fns, stA) == StepRes::Next(
                                cfg_of(*opCodes, *vm, frames@),
                            ));
                            k = k + 1;
                        }
                    },
                    (Value::Bol(x), Value::Bol(y)) => {
                        vm.stack.push(Value::Bol(x == y));
                        proof {
                            assert(step(ops, fns, stA) == StepRes::Next(
                                cfg_of(*opCodes, *vm, frames@),
                            ));
                            k = k + 1;
                        }
                    },
                    (Value::Chr(x), Value::Chr(y)) => {
                        vm.stack.push(Value::Bol(x == y));
                        proof {
                            assert(step(ops, fns, stA) == StepRes::Next(
                                cfg_of(*opCodes, *vm, frames@),
                            ));
                            k = k + 1;
                        }
                    },
                    (Value::Reference(x), Value::Reference(y)) => {
                        let e = match (x, y) {
                            (Option::None, Option::None) => true,
                            (Option::Some(ix), Option::Some(jx)) => ix == jx,
                            _ => false,
                        };
                        vm.stack.push(Value::Bol(e));
                        proof {
                            assert(step(ops, fns, stA) == StepRes::Next(
                                cfg_of(*opCodes, *vm, frames@),
                            ));
                            k = k + 1;
                        }
                    },
                    (Value::Flo(_), Value::Flo(_)) => {
                        return Result::Ok(RunOutcome::NeedFloat { op: FloatOp::Equals, a, b });
                    },
                    _ => {
                        proof {
                            witness_abort(
                                ops,
                                fns,
                                st0,
                                k,
                                stA,
                                VmError::TypeMismatch,
                                out_view(vm.output@),
                                objs_view(vm.heap@),
                                frames_view(frames@),
                            );
                        }
                        return Result::Err(VmError::TypeMismatch);
                    },
                }
            },
            OpCode::Greater(_) => {
                let l = vm.stack.len();
                if l < 2 {
                    proof {
                        witness_abort(
                            ops,
                            fns,
                            st0,
                            k,
                            stA,
                            VmError::StackUnderflow,
                            out_view(vm.output@),
                            objs_view(vm.heap@),
                            frames_view(frames@),
                        );
                    }
                    return Result::Err(VmError::StackUnderflow);
                }
                let b = vm.stack[l - 1];
                let a = vm.stack[l - 2];
                vm.stack.pop();
                vm.stack.pop();
                match (a, b) {
                    (Value::Num(x), Value::Num(y)) => {
                        vm.stack.push(Value::Bol(x > y));
                        proof {
                            assert(step(ops, fns, stA) == StepRes::Next(
                                cfg_of(*opCodes, *vm, frames@),
                            ));
                            k = k + 1;
                        }
                    },
                    (Value::Chr(x), Value::Chr(y)) => {
                        vm.stack.push(Value::Bol(x as u32 > y as u32));
                        proof {
                            assert(step(ops, fns, stA) == StepRes::Next(
                                cfg_of(*opCodes, *vm, frames@),
                            ));
                            k = k + 1;
                        }
                    },
                    (Value::Flo(_), Value::Flo(_)) => {
                        return Result::Ok(RunOutcome::NeedFloat { op: FloatOp::Greater, a, b });
                    },
                    _ => {
                        proof {
                            witness_abort(
                                ops,
                                fns,
                                st0,
                                k,
                                stA,
                                VmError::TypeMismatch,
                                out_view(vm.output@),
                                objs_view(vm.heap@),
                                frames_view(frames@),
                            );
                        }
                        return Result::Err(VmError::TypeMismatch);
                    },
                }
            },
            OpCode::Less(_) => {
                let l = vm.stack.len();
                if l < 2 {
                    proof {
                        witness_abort(
                            ops,
                            fns,
                            st0,
                            k,
                            stA,
                            VmError::StackUnderflow,
                            out_view(vm.output@),
                            objs_view(vm.heap@),
                            frames_view(frames@),
                        );
                    }
                    return Result::Err(VmError::StackUnderflow);
                }
                let b = vm.stack[l - 1];
                let a = vm.stack[l - 2];
                vm.stack.pop();
                vm.stack.pop();
                match (a, b) {
                    (Value::Num(x), Value::Num(y)) => {
                        vm.stack.push(Value::Bol(x < y));
                        proof {
                            assert(step(ops, fns, stA) == StepRes::Next(
                                cfg_of(*opCodes, *vm, frames@),
                            ));
                            k = k + 1;
                        }
                    },
                    (Value::Chr(x), Value::Chr(y)) => {
                        vm.stack.push(Value::Bol((x as u32) < (y as u32)));
                        proof {
                            assert(step(ops, fns, stA) == StepRes::Next(
                                cfg_of(*opCodes, *vm, frames@),
                            ));
                            k = k + 1;
                        }
                    },
                    (Value::Flo(_), Value::Flo(_)) => {
                        return Result::Ok(RunOutcome::NeedFloat { op: FloatOp::Less, a, b });
                    },
                    _ => {
                        proof {
                            witness_abort(
                                ops,
                                fns,
                                st0,
                                k,
                                stA,
                                VmError::TypeMismatch,
                                out_view(vm.output@),
                                objs_view(vm.heap@),
                                frames_view(frames@),
                            );
                        }
                        return Result::Err(VmError::TypeMismatch);
                    },
                }
            },
            OpCode::And => {
                let l = vm.stack.len();
                if l < 2 {
                    proof {
                        witness_abort(
                            ops,
                            fns,
                            st0,
                            k,
                            stA,
                            VmError::StackUnderflow,
                            out_view(vm.output@),
                            objs_view(vm.heap@),
                            frames_view(frames@),
                        );
                    }
                    return Result::Err(VmError::StackUnderflow);
                }
                let b = vm.stack[l - 1];
                let a = vm.stack[l - 2];
                vm.stack.pop();
                vm.stack.pop();
                match (a, b) {
                    (Value::Bol(x), Value::Bol(y)) => {
                        vm.stack.push(Value::Bol(x && y));
                        proof {
                            assert(step(ops, fns, stA) == StepRes::Next(
                                cfg_of(*opCodes, *vm, frames@),
                            ));
                            k = k + 1;
                        }
                    },
                    _ => {
                        proof {
                            witness_abort(
                                ops,
                                fns,
                                st0,
                                k,
                                stA,
                                VmError::TypeMismatch,
                                out_view(vm.output@),
                                objs_view(vm.heap@),
                                frames_view(frames@),
                            );
                        }
                        return Result::Err(VmError::TypeMismatch);
                    },
                }
            },
            OpCode::Or => {
                let l = vm.stack.len();
                if l < 2 {
                    proof {
                        witness_abort(
                            ops,
                            fns,
                            st0,
                            k,
                            stA,
                            VmError::StackUnderflow,
                            out_view(vm.output@),
                            objs_view(vm.heap@),
                            frames_view(frames@),
                        );
                    }
                    return Result::Err(VmError::StackUnderflow);
                }
                let b = vm.stack[l - 1];
                let a = vm.stack[l - 2];
                vm.stack.pop();
                vm.stack.pop();
                match (a, b) {
                    (Value::Bol(x), Value::Bol(y)) => {
                        vm.stack.push(Value::Bol(x || y));
                        proof {
                            assert(step(ops, fns, stA) == StepRes::Next(
                                cfg_of(*opCodes, *vm, frames@),
                            ));
                            k = k + 1;
                        }
                    },
                    _ => {
                        proof {
                            witness_abort(
                                ops,
                                fns,
                                st0,
                                k,
                                stA,
                                VmError::TypeMismatch,
                                out_view(vm.output@),
                                objs_view(vm.heap@),
                                frames_view(frames@),
                            );
                        }
                        return Result::Err(VmError::TypeMismatch);
                    },
                }
            },
            OpCode::Not => {
                match vm.stack.pop() {
                    Option::None => {
                        proof {
                            witness_abort(
                                ops,
                                fns,
                                st0,
                                k,
                                stA,
                                VmError::StackUnderflow,
                                out_view(vm.output@),
                                objs_view(vm.heap@),
                                frames_view(frames@),
                            );
                        }
                        return Result::Err(VmError::StackUnderflow);
                    },
                    Option::Some(Value::Bol(bb)) => {
                        vm.stack.push(Value::Bol(!bb));
                        proof {
                            assert(step(ops, fns, stA) == StepRes::Next(
                                cfg_of(*opCodes, *vm, frames@),
                            ));
                            k = k + 1;
                        }
                    },
                    Option::Some(_) => {
                        proof {
                            witness_abort(
                                ops,
                                fns,
                                st0,
                                k,
                                stA,
                                VmError::TypeMismatch,
                                out_view(vm.output@),
                                objs_view(vm.heap@),
                                frames_view(frames@),
                            );
                        }
                        return Result::Err(VmError::TypeMismatch);
                    },
                }
            },
            OpCode::ClassBegin => {
                proof {
                    witness_abort(
                        ops,
                        fns,
                        st0,
                        k,
                        stA,
                        VmError::ReservedOpcode,
                        out_view(vm.output@),
                        objs_view(vm.heap@),
                        frames_view(frames@),
                    );
                }
                return Result::Err(VmError::ReservedOpcode);
            },
            OpCode::ClassName { .. } => {
                proof {
                    witness_abort(
                        ops,
                        fns,
                        st0,
                        k,
                        stA,
                        VmError::ReservedOpcode,
                        out_view(vm.output@),
                        objs_view(vm.heap@),
                        frames_view(frames@),
                    );
                }
                return Result::Err(VmError::ReservedOpcode);
            },
            OpCode::ClassField { .. } => {
                proof {
                    witness_abort(
                        ops,
                        fns,
                        st0,
                        k,
                        stA,
                        VmError::ReservedOpcode,
                        out_view(vm.output@),
                        objs_view(vm.heap@),
                        frames_view(frames@),
                    );
                }
                return Result::Err(VmError::ReservedOpcode);
            },
            OpCode::ClassEnd => {
                proof {
                    witness_abort(
                        ops,
                        fns,
                        st0,
                        k,
                        stA,
                        VmError::ReservedOpcode,
                        out_view(vm.output@),
                        objs_view(vm.heap@),
                        frames_view(frames@),
                    );
                }
                return Result::Err(VmError::ReservedOpcode);
            },
            OpCode::New { .. } => {
                proof {
                    witness_abort(
                        ops,
                        fns,
                        st0,
                        k,
                        stA,
                        VmError::ReservedOpcode,
                        out_view(vm.output@),
                        objs_view(vm.heap@),
                        frames_view(frames@),
                    );
                }
                return Result::Err(VmError::ReservedOpcode);
            },
            OpCode::GetField { .. } => {
                proof {
                    witness_abort(
                        ops,
                        fns,
                        st0,
                        k,
                        stA,
                        VmError::ReservedOpcode,
                        out_view(vm.output@),
                        objs_view(vm.heap@),
                        frames_view(frames@),
                    );
                }
                return Result::Err(VmError::ReservedOpcode);
            },
            OpCode::SetField { .. } => {
                proof {
                    witness_abort(
                        ops,
                        fns,
                        st0,
                        k,
                        stA,
                        VmError::ReservedOpcode,
                        out_view(vm.output@),
                        objs_view(vm.heap@),
                        frames_view(frames@),
                    );
                }
                return Result::Err(VmError::ReservedOpcode);
            },
            OpCode::ArrayNew(_) => {
                proof {
                    witness_abort(
                        ops,
                        fns,
                        st0,
                        k,
                        stA,
                        VmError::ReservedOpcode,
                        out_view(vm.output@),
                        objs_view(vm.heap@),
                        frames_view(frames@),
                    );
                }
                return Result::Err(VmError::ReservedOpcode);
            },
            OpCode::ArrayStore(_) => {
                proof {
                    witness_abort(
                        ops,
                        fns,
                        st0,
                        k,
                        stA,
                        VmError::ReservedOpcode,
                        out_view(vm.output@),
                        objs_view(vm.heap@),
                        frames_view(frames@),
                    );
                }
                return Result::Err(VmError::ReservedOpcode);
            },
            OpCode::ArrayLoad(_) => {
                proof {
                    witness_abort(
                        ops,
                        fns,
                        st0,
                        k,
                        stA,
                        VmError::ReservedOpcode,
                        out_view(vm.output@),
                        objs_view(vm.heap@),
                        frames_view(frames@),
                    );
                }
                return Result::Err(VmError::ReservedOpcode);
            },
            OpCode::ArrayLength => {
                proof {
                    witness_abort(
                        ops,
                        fns,
                        st0,
                        k,
                        stA,
                        VmError::ReservedOpcode,
                        out_view(vm.output@),
                        objs_view(vm.heap@),
                        frames_view(frames@),
                    );
                }
                return Result::Err(VmError::ReservedOpcode);
            },
        }
    }
}

} // verus!
