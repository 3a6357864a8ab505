//! The general properties of the checker and the machine, stated and proved
//! over the specification-level checker and semantics.
use vstd::prelude::*;
use crate::types::{DataType, DataTypeV};
use crate::value::{Value, ObjV, OutItemV, FrameV};
use crate::opcode::{OpCode, JmpType};
use crate::vm::{FuncV, FuncBodyV, NativeId, lookup_fn};
use crate::checker::{CheckRes, spec_check_bytecode, spec_check_function, pop1, pop2, pop_args,
    checked_contains};
use crate::semantics::{VmError, FloatOp, StV, StepRes, RunRes, step, run_n, lemma_run_n_add,
    native_effect, NatRes};
use crate::stdlib::{boot_funcs, str_type_v};

verus! {

/// `Dup` followed by `Pop` is observationally a no-op: on a non-empty
/// operand stack the two steps lead to the same configuration as skipping
/// both instructions.
pub proof fn lemma_dup_pop_noop(ops: Seq<OpCode>, funcs: Seq<FuncV>, st: StV)
    requires
        st.frames.len() >= 1,
        0 <= st.ip,
        st.ip + 1 < ops.len(),
        ops[st.ip] is Dup,
        ops[st.ip + 1] is Pop,
        st.stack.len() >= 1,
    ensures
        ({
            let s1 = step(ops, funcs, st);
            &&& s1 is Next
            &&& step(ops, funcs, s1->Next_0) == StepRes::Next(StV { ip: st.ip + 2, ..st })
        }),
{
    assert(step(ops, funcs, st) == StepRes::Next(
        StV { ip: st.ip + 1, stack: st.stack.push(st.stack.last()), ..st },
    ));
    let s1 = step(ops, funcs, st)->Next_0;
    assert(s1.stack.len() >= 1);
    assert(step(ops, funcs, s1) == StepRes::Next(
        StV { ip: s1.ip + 1, stack: s1.stack.drop_last(), ..s1 },
    ));
    assert(s1.stack.drop_last() =~= st.stack);
}

/// The same, on the abstract side: the checker treats `Dup` then `Pop` as
/// leaving the abstract stack unchanged.
pub proof fn lemma_dup_pop_abstract(
    ops: Seq<OpCode>,
    i: int,
    locals: Seq<DataTypeV>,
    stack: Seq<DataTypeV>,
    checked: Seq<Seq<char>>,
    funcs: Seq<FuncV>,
)
    requires
        0 <= i,
        i + 1 < ops.len(),
        ops[i] is Dup,
        ops[i + 1] is Pop,
        stack.len() >= 1,
    ensures
        spec_check_bytecode(ops, i, locals, stack, checked, funcs) == spec_check_bytecode(
            ops,
            i + 2,
            locals,
            stack,
            checked,
            funcs,
        ),
{
    reveal_with_fuel(spec_check_bytecode, 3);
    assert(stack.push(stack.last()).drop_last() =~= stack);
}

/// Round trip on the machine: `I2F` followed by `F2I` on a stack whose top
/// is an integer of magnitude below `2^53` leads to the configuration the
/// machine started from, but past the two instructions. Rests on the
/// round-trip of the exact conversions.
pub proof fn lemma_i2f_f2i_machine(ops: Seq<OpCode>, funcs: Seq<FuncV>, st: StV)
    requires
        st.frames.len() >= 1,
        0 <= st.ip,
        st.ip + 1 < ops.len(),
        ops[st.ip] is I2F,
        ops[st.ip + 1] is F2I,
        st.stack.len() >= 1,
        st.stack.last() matches Value::Num(n) && -0x20000000000000 < n < 0x20000000000000,
    ensures
        ({
            let s1 = step(ops, funcs, st);
            &&& s1 is Next
            &&& step(ops, funcs, s1->Next_0) == StepRes::Next(StV { ip: st.ip + 2, ..st })
        }),
{
    let n = st.stack.last()->Num_0;
    crate::float_bits::lemma_i2f_f2i_roundtrip(n);
    let b = crate::float_bits::i2f_small_bits(n);
    assert(step(ops, funcs, st) == StepRes::Next(
        StV { ip: st.ip + 1, stack: st.stack.drop_last().push(Value::Flo(b)), ..st },
    ));
    let s1 = step(ops, funcs, st)->Next_0;
    assert(s1.stack.last() == Value::Flo(b));
    assert(crate::float_bits::f2i_bits(b) == n);
    assert(step(ops, funcs, s1) == StepRes::Next(
        StV {
            ip: s1.ip + 1,
            stack: s1.stack.drop_last().push(Value::Num(n)),
            ..s1
        },
    ));
    assert(s1.stack.drop_last() =~= st.stack.drop_last());
    assert(s1.stack.drop_last().push(Value::Num(n)) =~= st.stack);
}

/// A `Call` whose target is neither already checked nor in the registry is
/// rejected.
pub proof fn lemma_unknown_call_rejected(
    ops: Seq<OpCode>,
    i: int,
    locals: Seq<DataTypeV>,
    stack: Seq<DataTypeV>,
    checked: Seq<Seq<char>>,
    funcs: Seq<FuncV>,
)
    requires
        0 <= i < ops.len(),
        ops[i] is Call,
        !checked_contains(checked, ops[i]->Call_encoded@),
        lookup_fn(funcs, ops[i]->Call_encoded@) is None,
    ensures
        spec_check_bytecode(ops, i, locals, stack, checked, funcs) == CheckRes::Rejected,
{
}

/// `SetLocal { i, T }` with `i` out of range, or with a stack top whose tag
/// is not `T`, is rejected.
pub proof fn lemma_set_local_rejected(
    ops: Seq<OpCode>,
    i: int,
    locals: Seq<DataTypeV>,
    stack: Seq<DataTypeV>,
    checked: Seq<Seq<char>>,
    funcs: Seq<FuncV>,
)
    requires
        0 <= i < ops.len(),
        ops[i] matches OpCode::SetLocal { index, typ },
        ops[i]->SetLocal_index >= locals.len() || stack.len() == 0 || stack.last()
            != ops[i]->SetLocal_typ@,
    ensures
        spec_check_bytecode(ops, i, locals, stack, checked, funcs) == CheckRes::Rejected,
{
}

/// Division's result tag is `Float` whatever the operand tag: when the two
/// operands check, the rest of the stream is checked with `Float` on top.
pub proof fn lemma_division_yields_float(
    ops: Seq<OpCode>,
    i: int,
    locals: Seq<DataTypeV>,
    stack: Seq<DataTypeV>,
    checked: Seq<Seq<char>>,
    funcs: Seq<FuncV>,
    rest: Seq<DataTypeV>,
)
    requires
        0 <= i < ops.len(),
        ops[i] is Div,
        pop2(stack, ops[i]->Div_0@) == Option::Some(rest),
    ensures
        spec_check_bytecode(ops, i, locals, stack, checked, funcs) == spec_check_bytecode(
            ops,
            i + 1,
            locals,
            rest.push(DataTypeV::Float),
            checked,
            funcs,
        ),
{
}

/// The empty stream is accepted by the checker with everything unchanged,
/// and the machine ends on it at once without touching its state.
pub proof fn lemma_empty_stream_noop(
    locals: Seq<DataTypeV>,
    stack: Seq<DataTypeV>,
    checked: Seq<Seq<char>>,
    funcs: Seq<FuncV>,
    st: StV,
    n: nat,
)
    requires
        st.ip == 0,
        st.frames.len() >= 1,
        n >= 1,
    ensures
        spec_check_bytecode(Seq::empty(), 0, locals, stack, checked, funcs) == (CheckRes::Passed {
            i: 0,
            stack,
            checked,
        }),
        run_n(Seq::empty(), funcs, st, n) == RunRes::DoneR(st),
{
    assert(step(Seq::empty(), funcs, st) == StepRes::DoneR(st));
}

/// A function block that the checker passes obeyed its declared return
/// discipline: with return type `T` the abstract stack grew by exactly one
/// slot whose tag is `T`; with none, it is exactly the stack the block was
/// entered with in depth, whatever the body did.
pub proof fn lemma_function_block_discipline(
    ops: Seq<OpCode>,
    p: int,
    stack: Seq<DataTypeV>,
    checked: Seq<Seq<char>>,
    funcs: Seq<FuncV>,
)
    requires
        spec_check_function(ops, p, stack, checked, funcs) is Passed,
    ensures
        ({
            let st2 = spec_check_function(ops, p, stack, checked, funcs)->Passed_stack;
            match ops[p + 2]->FunReturn_typ {
                Option::Some(t) => st2.len() == stack.len() + 1 && st2.last() == t@,
                Option::None => st2.len() == stack.len(),
            }
        }),
{
}

/// The declared return tag of each native in the boot registry.
pub open spec fn native_ret(id: NativeId) -> Option<DataTypeV> {
    match id {
        NativeId::PrintInt => Option::None,
        NativeId::PrintFloat => Option::None,
        NativeId::PrintString => Option::None,
        NativeId::AssertIntInt => Option::None,
        NativeId::MakeString => Option::Some(str_type_v()),
        NativeId::AppendChar => Option::None,
        NativeId::StrLen => Option::Some(DataTypeV::Int),
        NativeId::GetChar => Option::Some(DataTypeV::Char),
        NativeId::EndsWith => Option::Some(DataTypeV::Bool),
        NativeId::ArrayLen => Option::Some(DataTypeV::Int),
        NativeId::MakeArray => Option::Some(DataTypeV::Array(Box::new(DataTypeV::Any))),
    }
}

/// Whether a runtime value deeply carries a tag: its variant matches, and a
/// non-null reference points into the heap, at a string object for the
/// `String` object tag and at an array object for an array tag.
pub open spec fn value_fits(v: Value, t: DataTypeV, heap: Seq<ObjV>) -> bool {
    match t {
        DataTypeV::Int => v is Num,
        DataTypeV::Float => v is Flo,
        DataTypeV::Bool => v is Bol,
        DataTypeV::Char => v is Chr,
        DataTypeV::Object { name, .. } => match v {
            Value::Reference(Option::None) => true,
            Value::Reference(Option::Some(ix)) => name == "String"@ && ix < heap.len() && heap[
                ix as int
            ] is Str,
            _ => false,
        },
        DataTypeV::Array(_) => match v {
            Value::Reference(Option::None) => true,
            Value::Reference(Option::Some(ix)) => ix < heap.len() && heap[ix as int] is Arr,
            _ => false,
        },
        DataTypeV::Any => match v {
            Value::Reference(Option::None) => true,
            Value::Reference(Option::Some(ix)) => ix < heap.len(),
            _ => false,
        },
    }
}

/// A later heap keeps every earlier object's kind; new objects may follow.
pub open spec fn heap_extends(heap: Seq<ObjV>, h2: Seq<ObjV>) -> bool {
    h2.len() >= heap.len() && forall|j: int|
        0 <= j < heap.len() ==> ((#[trigger] h2[j] is Str <==> heap[j] is Str) && (h2[j] is Arr
            <==> heap[j] is Arr))
}

/// A value that carries a tag still carries it on a later heap.
pub proof fn lemma_fits_extend(v: Value, t: DataTypeV, heap: Seq<ObjV>, h2: Seq<ObjV>)
    requires
        value_fits(v, t, heap),
        heap_extends(heap, h2),
    ensures
        value_fits(v, t, h2),
{
}

/// Every value of a run carries its tag.
pub open spec fn all_fit(vals: Seq<Value>, tags: Seq<DataTypeV>, heap: Seq<ObjV>) -> bool {
    vals.len() == tags.len() && forall|i: int|
        0 <= i < vals.len() ==> value_fits(vals[i], tags[i], heap)
}

/// The stated discipline of one native call's effect.
pub open spec fn native_ret_ok(
    id: NativeId,
    locals: Seq<Value>,
    stack: Seq<Value>,
    heap: Seq<ObjV>,
    out: Seq<OutItemV>,
) -> bool {
    match native_effect(id, locals, stack, heap, out) {
        NatRes::Go { stack: s2, heap: h2, out: _ } => {
            &&& (match native_ret(id) {
                Option::Some(t) => exists|v: Value|
                    s2 == stack.push(v) && #[trigger] value_fits(v, t, h2),
                Option::None => s2 == stack,
            })
            &&& heap_extends(heap, h2)
        },
        NatRes::AbortN(_) => true,
    }
}

/// A completed native call from the boot registry left the rest of the
/// operand stack alone and pushed exactly one value of its declared return
/// tag, or none when it has no return type; the heap only grew or kept each
/// object's kind.
#[verifier::rlimit(100)]
pub proof fn lemma_native_effect_ret(
    id: NativeId,
    locals: Seq<Value>,
    stack: Seq<Value>,
    heap: Seq<ObjV>,
    out: Seq<OutItemV>,
)
    requires
        heap.len() <= usize::MAX,
    ensures
        native_ret_ok(id, locals, stack, heap, out),
{
    let r = native_effect(id, locals, stack, heap, out);
    match id {
        NativeId::MakeString => {
            let v = Value::Reference(Option::Some(heap.len() as usize));
            assert(r->Go_stack == stack.push(v) && value_fits(v, str_type_v(), r->Go_heap));
        },
        NativeId::MakeArray => {
            if locals.len() >= 1 && locals[0] is Num && locals[0]->Num_0 >= 0 {
                let v = Value::Reference(Option::Some(heap.len() as usize));
                assert(r->Go_stack == stack.push(v) && value_fits(
                    v,
                    DataTypeV::Array(Box::new(DataTypeV::Any)),
                    r->Go_heap,
                ));
            }
        },
        NativeId::StrLen => {
            if r is Go && locals.len() >= 1 && locals[0] is Reference
                && locals[0]->Reference_0 is Some {
                let ix = locals[0]->Reference_0->0;
                if ix < heap.len() && heap[ix as int] is Str {
                    let v = Value::Num(heap[ix as int]->Str_0.len() as i64);
                    assert(r->Go_stack == stack.push(v) && value_fits(
                        v,
                        DataTypeV::Int,
                        r->Go_heap,
                    ));
                }
            }
        },
        NativeId::GetChar => {
            if r is Go && locals.len() >= 2 && locals[0] is Reference && locals[1] is Num
                && locals[0]->Reference_0 is Some {
                let ix = locals[0]->Reference_0->0;
                if ix < heap.len() && heap[ix as int] is Str {
                    let cs = heap[ix as int]->Str_0;
                    let k = locals[1]->Num_0;
                    if 0 <= k < cs.len() {
                        let v = Value::Chr(crate::semantics::chr_at(cs, k as int));
                        assert(r->Go_stack == stack.push(v));
                        assert(value_fits(v, DataTypeV::Char, r->Go_heap));
                    }
                }
            }
        },
        NativeId::EndsWith => {
            if r is Go && locals.len() >= 2 && locals[0] is Reference && locals[1] is Reference
                && locals[0]->Reference_0 is Some && locals[1]->Reference_0 is Some {
                let ix = locals[0]->Reference_0->0;
                let jx = locals[1]->Reference_0->0;
                if ix < heap.len() && heap[ix as int] is Str && jx < heap.len() && heap[
                    jx as int
                ] is Str {
                    let a = heap[ix as int]->Str_0;
                    let t = heap[jx as int]->Str_0;
                    let v = Value::Bol(
                        a.len() >= t.len() && a.subrange(a.len() - t.len(), a.len() as int) == t,
                    );
                    assert(r->Go_stack == stack.push(v) && value_fits(
                        v,
                        DataTypeV::Bool,
                        r->Go_heap,
                    ));
                }
            }
        },
        NativeId::ArrayLen => {
            if r is Go && locals.len() >= 1 && locals[0] is Reference
                && locals[0]->Reference_0 is Some {
                let ix = locals[0]->Reference_0->0;
                if ix < heap.len() && heap[ix as int] is Arr {
                    let v = Value::Num(heap[ix as int]->Arr_0.len() as i64);
                    assert(r->Go_stack == stack.push(v) && value_fits(
                        v,
                        DataTypeV::Int,
                        r->Go_heap,
                    ));
                }
            }
        },
        _ => {},
    }
}

/// All the values of a run carry their tags on a later heap too.
pub proof fn lemma_all_fit_extend(vals: Seq<Value>, tags: Seq<DataTypeV>, heap: Seq<ObjV>, h2: Seq<ObjV>)
    requires
        all_fit(vals, tags, heap),
        heap_extends(heap, h2),
    ensures
        all_fit(vals, tags, h2),
{
    assert forall|i: int| 0 <= i < vals.len() implies value_fits(vals[i], tags[i], h2) by {
        lemma_fits_extend(vals[i], tags[i], heap, h2);
    }
}

/// When a call's argument tags pop, the abstract stack splits into the rest
/// and the argument tags in declared order.
pub proof fn lemma_pop_args_decompose(a: Seq<DataTypeV>, args: Seq<DataTypeV>)
    requires
        pop_args(a, args) is Some,
    ensures
        a.len() >= args.len(),
        pop_args(a, args) == Option::Some(a.subrange(0, a.len() - args.len())),
        forall|i: int| 0 <= i < args.len() ==> a[a.len() - args.len() + i] == args[i],
    decreases args.len(),
{
    if args.len() == 0 {
        assert(a.subrange(0, a.len() as int) =~= a);
    } else {
        lemma_pop_args_decompose(a.drop_last(), args.drop_last());
        assert(a.drop_last().subrange(0, a.len() - args.len()) =~= a.subrange(
            0,
            a.len() - args.len(),
        ));
        assert forall|i: int| 0 <= i < args.len() implies a[a.len() - args.len() + i] == args[
            i
        ] by {
            if i == args.len() - 1 {
                assert(a.last() == args.last());
            } else {
                assert(a.drop_last()[a.drop_last().len() - args.drop_last().len() + i]
                    == args.drop_last()[i]);
            }
        }
    }
}

/// What a lookup returns is a record of the registry.
pub proof fn lemma_lookup_is_element(funcs: Seq<FuncV>, sig: Seq<char>)
    requires
        lookup_fn(funcs, sig) is Some,
    ensures
        exists|i: int| 0 <= i < funcs.len() && funcs[i] == lookup_fn(funcs, sig)->0,
    decreases funcs.len(),
{
    if funcs.len() > 0 && funcs[0].sig != sig {
        lemma_lookup_is_element(funcs.drop_first(), sig);
        let i = choose|i: int|
            0 <= i < funcs.drop_first().len() && funcs.drop_first()[i] == lookup_fn(
                funcs.drop_first(),
                sig,
            )->0;
        assert(funcs[i + 1] == lookup_fn(funcs, sig)->0);
    }
}

/// The instruction shapes of the straight-line fragment: no jumps, no
/// in-stream function blocks, and arithmetic, ordering and stepping only at
/// numeric or character tags — the shapes on which acceptance by the
/// checker makes the unchecked machine safe.
pub open spec fn straight_op(op: OpCode) -> bool {
    match op {
        OpCode::Jmp { .. } => false,
        OpCode::FunBegin => false,
        OpCode::FunName { .. } => false,
        OpCode::LocalVarTable { .. } => false,
        OpCode::FunReturn { .. } => false,
        OpCode::FunEnd => false,
        OpCode::Add(t) => t@ is Int || t@ is Float,
        OpCode::Sub(t) => t@ is Int || t@ is Float,
        OpCode::Mul(t) => t@ is Int || t@ is Float,
        OpCode::Div(t) => t@ is Int || t@ is Float,
        OpCode::Greater(t) => t@ is Int || t@ is Float || t@ is Char,
        OpCode::Less(t) => t@ is Int || t@ is Float || t@ is Char,
        OpCode::Inc { typ, .. } => typ@ is Int || typ@ is Float,
        OpCode::Dec { typ, .. } => typ@ is Int || typ@ is Float,
        _ => true,
    }
}

pub open spec fn straightline(ops: Seq<OpCode>) -> bool {
    forall|j: int| 0 <= j < ops.len() ==> straight_op(#[trigger] ops[j])
}

/// The value at one position of a stack.
pub open spec fn val_at(s: Seq<Value>, i: int) -> Value {
    s[i]
}

/// One safe step: in the straight-line fragment, on a program point the
/// checker passed with an abstract stack that the operand stack fits and
/// abstract locals that the root frame's locals fit, the booted machine's
/// next step is neither a stack underflow nor a tag mismatch, and a `Next`
/// step reaches a point the checker passed again, fitted the same way.
#[verifier::rlimit(100)]
pub proof fn lemma_step_sound(ops: Seq<OpCode>, st: StV, tagsL: Seq<DataTypeV>, tagsA: Seq<DataTypeV>)
    requires
        straightline(ops),
        spec_check_bytecode(ops, st.ip, tagsL, tagsA, Seq::empty(), boot_funcs()) is Passed,
        st.frames.len() == 1,
        all_fit(st.stack, tagsA, st.heap),
        all_fit(st.frames[0].locals, tagsL, st.heap),
        0 <= st.ip <= ops.len(),
        st.heap.len() < usize::MAX,
    ensures
        step(ops, boot_funcs(), st) != StepRes::Abort(VmError::StackUnderflow),
        step(ops, boot_funcs(), st) != StepRes::Abort(VmError::TypeMismatch),
        step(ops, boot_funcs(), st) matches StepRes::Next(st2) ==> ({
            &&& st2.frames.len() == 1
            &&& 0 <= st2.ip <= ops.len()
            &&& st2.heap.len() <= st.heap.len() + 1
            &&& all_fit(st2.frames[0].locals, tagsL, st2.heap)
            &&& exists|a2: Seq<DataTypeV>|
                spec_check_bytecode(ops, st2.ip, tagsL, a2, Seq::empty(), boot_funcs())
                    is Passed && #[trigger] all_fit(st2.stack, a2, st2.heap)
        }),
{
    let funcs = boot_funcs();
    if st.ip < ops.len() {
        step_sound_inner(ops, st, tagsL, tagsA);
    }
}

/// The per-opcode case analysis of `lemma_step_sound`.
#[verifier::rlimit(100)]
proof fn step_sound_inner(ops: Seq<OpCode>, st: StV, tagsL: Seq<DataTypeV>, tagsA: Seq<DataTypeV>)
    requires
        straightline(ops),
        spec_check_bytecode(ops, st.ip, tagsL, tagsA, Seq::empty(), boot_funcs()) is Passed,
        st.frames.len() == 1,
        all_fit(st.stack, tagsA, st.heap),
        all_fit(st.frames[0].locals, tagsL, st.heap),
        0 <= st.ip < ops.len(),
        st.heap.len() < usize::MAX,
    ensures
        step(ops, boot_funcs(), st) != StepRes::Abort(VmError::StackUnderflow),
        step(ops, boot_funcs(), st) != StepRes::Abort(VmError::TypeMismatch),
        step(ops, boot_funcs(), st) matches StepRes::Next(st2) ==> ({
            &&& st2.frames.len() == 1
            &&& 0 <= st2.ip <= ops.len()
            &&& st2.heap.len() <= st.heap.len() + 1
            &&& all_fit(st2.frames[0].locals, tagsL, st2.heap)
            &&& exists|a2: Seq<DataTypeV>|
                spec_check_bytecode(ops, st2.ip, tagsL, a2, Seq::empty(), boot_funcs())
                    is Passed && #[trigger] all_fit(st2.stack, a2, st2.heap)
        }),
{
    let funcs = boot_funcs();
    let frame = st.frames.last();
    assert(frame == st.frames[0]);
    match ops[st.ip] {
        OpCode::PushInt(v) => {
            witness_push(st.stack, tagsA, st.heap, Value::Num(v), DataTypeV::Int);
            proof_next_ok(ops, st, tagsL, tagsA.push(DataTypeV::Int));
        },
        OpCode::PushFloat(v) => {
            witness_push(st.stack, tagsA, st.heap, Value::Flo(v), DataTypeV::Float);
            proof_next_ok(ops, st, tagsL, tagsA.push(DataTypeV::Float));
        },
        OpCode::PushBool(v) => {
            witness_push(st.stack, tagsA, st.heap, Value::Bol(v), DataTypeV::Bool);
            proof_next_ok(ops, st, tagsL, tagsA.push(DataTypeV::Bool));
        },
        OpCode::PushChar(v) => {
            witness_push(st.stack, tagsA, st.heap, Value::Chr(v), DataTypeV::Char);
            proof_next_ok(ops, st, tagsL, tagsA.push(DataTypeV::Char));
        },
        OpCode::Pop => {
            let st2 = step(ops, funcs, st)->Next_0;
            let a2 = tagsA.drop_last();
            assert(all_fit(st2.stack, a2, st2.heap));
            proof_next_ok(ops, st, tagsL, a2);
        },
        OpCode::Dup => {
            let st2 = step(ops, funcs, st)->Next_0;
            let a2 = tagsA.push(tagsA.last());
            assert(st.stack.last() == val_at(st.stack, st.stack.len() - 1));
            assert(st2.stack == st.stack.push(val_at(st.stack, st.stack.len() - 1)));
            assert(all_fit(st2.stack, a2, st2.heap)) by {
                assert(forall|i: int|
                    0 <= i < st.stack.len() ==> st2.stack[i] == st.stack[i] && a2[i] == tagsA[i]);
                assert(st2.stack[st.stack.len() as int] == st.stack.last());
            }
            proof_next_ok(ops, st, tagsL, a2);
        },
        OpCode::PushLocal { index } => {
            let st2 = step(ops, funcs, st)->Next_0;
            let a2 = tagsA.push(tagsL[index as int]);
            assert(frame.locals[index as int] == val_at(frame.locals, index as int));
            assert(st2.stack == st.stack.push(val_at(frame.locals, index as int)));
            assert(all_fit(st2.stack, a2, st2.heap)) by {
                assert(forall|i: int|
                    0 <= i < st.stack.len() ==> st2.stack[i] == st.stack[i] && a2[i] == tagsA[i]);
                assert(st2.stack[st.stack.len() as int] == frame.locals[index as int]);
            }
            proof_next_ok(ops, st, tagsL, a2);
        },
        OpCode::SetLocal { index, typ } => {
            assert(tagsA.len() >= 1 && tagsA.last() == typ@ && index < tagsL.len() && tagsL[
                index as int
            ] == typ@);
            let st2 = step(ops, funcs, st)->Next_0;
            let a2 = tagsA.drop_last();
            assert(st.stack.last() == val_at(st.stack, st.stack.len() - 1));
            assert(st2.frames[0] == st2.frames.last());
            assert(all_fit(st2.frames[0].locals, tagsL, st2.heap));
            assert(all_fit(st2.stack, a2, st2.heap));
            proof_next_ok(ops, st, tagsL, a2);
        },
        OpCode::Inc { typ, index } => {
            assert(index < tagsL.len() && tagsL[index as int] == typ@);
            if frame.locals[index as int] is Num {
                let st2 = step(ops, funcs, st)->Next_0;
                assert(st2.frames[0] == st2.frames.last());
                assert(all_fit(st2.frames[0].locals, tagsL, st2.heap));
                assert(all_fit(st2.stack, tagsA, st2.heap));
                proof_next_ok(ops, st, tagsL, tagsA);
            }
        },
        OpCode::Dec { typ, index } => {
            assert(index < tagsL.len() && tagsL[index as int] == typ@);
            if frame.locals[index as int] is Num {
                let st2 = step(ops, funcs, st)->Next_0;
                assert(st2.frames[0] == st2.frames.last());
                assert(all_fit(st2.frames[0].locals, tagsL, st2.heap));
                assert(all_fit(st2.stack, tagsA, st2.heap));
                proof_next_ok(ops, st, tagsL, tagsA);
            }
        },
        OpCode::F2I => {
            assert(tagsA.len() >= 1 && tagsA.last() == DataTypeV::Float);
            assert(st.stack.last() is Flo);
            let st2 = step(ops, funcs, st)->Next_0;
            let a2 = tagsA.drop_last().push(DataTypeV::Int);
            assert(all_fit(st2.stack, a2, st2.heap)) by {
                assert(forall|i: int|
                    0 <= i < st.stack.len() - 1 ==> st2.stack[i] == st.stack[i] && a2[i] == tagsA[
                        i
                    ]);
                assert(st2.stack.last() is Num);
            }
            proof_next_ok(ops, st, tagsL, a2);
        },
        OpCode::I2F => {
            assert(tagsA.len() >= 1 && tagsA.last() == DataTypeV::Int);
            assert(st.stack.last() is Num);
            if -0x20000000000000 < st.stack.last()->Num_0 < 0x20000000000000 {
                let st2 = step(ops, funcs, st)->Next_0;
                let a2 = tagsA.drop_last().push(DataTypeV::Float);
                assert(all_fit(st2.stack, a2, st2.heap)) by {
                    assert(forall|i: int|
                        0 <= i < st.stack.len() - 1 ==> st2.stack[i] == st.stack[i] && a2[i]
                            == tagsA[i]);
                    assert(st2.stack.last() is Flo);
                }
                proof_next_ok(ops, st, tagsL, a2);
            }
        },
        OpCode::Add(t) => {
            bin_arith_sound(ops, st, tagsL, tagsA, t@);
            if step(ops, funcs, st) is Next {
                proof_next_ok(ops, st, tagsL, tagsA.drop_last().drop_last().push(t@));
            }
        },
        OpCode::Sub(t) => {
            bin_arith_sound(ops, st, tagsL, tagsA, t@);
            if step(ops, funcs, st) is Next {
                proof_next_ok(ops, st, tagsL, tagsA.drop_last().drop_last().push(t@));
            }
        },
        OpCode::Mul(t) => {
            bin_arith_sound(ops, st, tagsL, tagsA, t@);
            if step(ops, funcs, st) is Next {
                proof_next_ok(ops, st, tagsL, tagsA.drop_last().drop_last().push(t@));
            }
        },
        OpCode::Div(t) => {
            assert(tagsA.len() >= 2 && tagsA.last() == t@ && tagsA.drop_last().last() == t@);
        },
        OpCode::Equals(t) => {
            bin_cmp_sound(ops, st, tagsL, tagsA, t@);
            if step(ops, funcs, st) is Next {
                proof_next_ok(ops, st, tagsL, tagsA.drop_last().drop_last().push(DataTypeV::Bool));
            }
        },
        OpCode::Greater(t) => {
            bin_cmp_sound(ops, st, tagsL, tagsA, t@);
            if step(ops, funcs, st) is Next {
                proof_next_ok(ops, st, tagsL, tagsA.drop_last().drop_last().push(DataTypeV::Bool));
            }
        },
        OpCode::Less(t) => {
            bin_cmp_sound(ops, st, tagsL, tagsA, t@);
            if step(ops, funcs, st) is Next {
                proof_next_ok(ops, st, tagsL, tagsA.drop_last().drop_last().push(DataTypeV::Bool));
            }
        },
        OpCode::And => {
            bin_bool_sound(ops, st, tagsL, tagsA);
            if step(ops, funcs, st) is Next {
                proof_next_ok(ops, st, tagsL, tagsA.drop_last().drop_last().push(DataTypeV::Bool));
            }
        },
        OpCode::Or => {
            bin_bool_sound(ops, st, tagsL, tagsA);
            if step(ops, funcs, st) is Next {
                proof_next_ok(ops, st, tagsL, tagsA.drop_last().drop_last().push(DataTypeV::Bool));
            }
        },
        OpCode::Not => {
            assert(tagsA.len() >= 1 && tagsA.last() == DataTypeV::Bool);
            let st2 = step(ops, funcs, st)->Next_0;
            let a2 = tagsA.drop_last().push(DataTypeV::Bool);
            assert(all_fit(st2.stack, a2, st2.heap));
            proof_next_ok(ops, st, tagsL, a2);
        },
        OpCode::Return => {
        },
        OpCode::Call { encoded } => {
            call_sound(ops, st, tagsL, tagsA);
        },
        _ => {
        },
    }
}

/// Establishes the safe-next postcondition from an explicit witness.
proof fn proof_next_ok(ops: Seq<OpCode>, st: StV, tagsL: Seq<DataTypeV>, a2: Seq<DataTypeV>)
    requires
        step(ops, boot_funcs(), st) is Next,
        spec_check_bytecode(
            ops,
            step(ops, boot_funcs(), st)->Next_0.ip,
            tagsL,
            a2,
            Seq::empty(),
            boot_funcs(),
        ) is Passed,
        all_fit(
            step(ops, boot_funcs(), st)->Next_0.stack,
            a2,
            step(ops, boot_funcs(), st)->Next_0.heap,
        ),
    ensures
        exists|b2: Seq<DataTypeV>|
            spec_check_bytecode(
                ops,
                step(ops, boot_funcs(), st)->Next_0.ip,
                tagsL,
                b2,
                Seq::empty(),
                boot_funcs(),
            ) is Passed && #[trigger] all_fit(
                step(ops, boot_funcs(), st)->Next_0.stack,
                b2,
                step(ops, boot_funcs(), st)->Next_0.heap,
            ),
{
}

/// Pushing a fitting value keeps the whole stack fitting.
proof fn witness_push(stack: Seq<Value>, tagsA: Seq<DataTypeV>, heap: Seq<ObjV>, v: Value, t: DataTypeV)
    requires
        all_fit(stack, tagsA, heap),
        value_fits(v, t, heap),
    ensures
        all_fit(stack.push(v), tagsA.push(t), heap),
{
    let s2 = stack.push(v);
    let a2 = tagsA.push(t);
    assert forall|i: int| 0 <= i < s2.len() implies value_fits(s2[i], a2[i], heap) by {
        if i < stack.len() {
            assert(s2[i] == stack[i] && a2[i] == tagsA[i]);
        } else {
            assert(s2[i] == v && a2[i] == t);
        }
    }
}

/// The safe-step case of integer or float arithmetic.
proof fn bin_arith_sound(ops: Seq<OpCode>, st: StV, tagsL: Seq<DataTypeV>, tagsA: Seq<DataTypeV>, t: DataTypeV)
    requires
        straightline(ops),
        spec_check_bytecode(ops, st.ip, tagsL, tagsA, Seq::empty(), boot_funcs()) is Passed,
        st.frames.len() == 1,
        all_fit(st.stack, tagsA, st.heap),
        0 <= st.ip < ops.len(),
        (ops[st.ip] matches OpCode::Add(tt) && tt@ == t) || (ops[st.ip] matches OpCode::Sub(tt)
            && tt@ == t) || (ops[st.ip] matches OpCode::Mul(tt) && tt@ == t),
        t is Int || t is Float,
    ensures
        step(ops, boot_funcs(), st) != StepRes::Abort(VmError::StackUnderflow),
        step(ops, boot_funcs(), st) != StepRes::Abort(VmError::TypeMismatch),
        step(ops, boot_funcs(), st) matches StepRes::Next(st2) ==> all_fit(
            st2.stack,
            tagsA.drop_last().drop_last().push(t),
            st2.heap,
        ),
{
    assert(tagsA.len() >= 2 && tagsA.last() == t && tagsA.drop_last().last() == t);
    assert(value_fits(st.stack.last(), t, st.heap));
    assert(st.stack.drop_last().last() == st.stack[st.stack.len() - 2]);
    assert(value_fits(st.stack.drop_last().last(), t, st.heap));
    match step(ops, boot_funcs(), st) {
        StepRes::Next(st2) => {
            let a2 = tagsA.drop_last().drop_last().push(t);
            assert forall|i: int| 0 <= i < st2.stack.len() implies value_fits(
                st2.stack[i],
                a2[i],
                st2.heap,
            ) by {
                if i < st.stack.len() - 2 {
                    assert(st2.stack[i] == st.stack[i] && a2[i] == tagsA[i]);
                } else {
                    assert(st2.stack[i] == st2.stack.last());
                }
            }
        },
        _ => {},
    }
}

/// The safe-step case of a comparison.
proof fn bin_cmp_sound(ops: Seq<OpCode>, st: StV, tagsL: Seq<DataTypeV>, tagsA: Seq<DataTypeV>, t: DataTypeV)
    requires
        straightline(ops),
        spec_check_bytecode(ops, st.ip, tagsL, tagsA, Seq::empty(), boot_funcs()) is Passed,
        st.frames.len() == 1,
        all_fit(st.stack, tagsA, st.heap),
        0 <= st.ip < ops.len(),
        (ops[st.ip] matches OpCode::Equals(tt) && tt@ == t) || (ops[st.ip]
            matches OpCode::Greater(tt) && tt@ == t) || (ops[st.ip] matches OpCode::Less(tt)
            && tt@ == t),
        ops[st.ip] is Equals || t is Int || t is Float || t is Char,
    ensures
        step(ops, boot_funcs(), st) != StepRes::Abort(VmError::StackUnderflow),
        step(ops, boot_funcs(), st) != StepRes::Abort(VmError::TypeMismatch),
        step(ops, boot_funcs(), st) matches StepRes::Next(st2) ==> all_fit(
            st2.stack,
            tagsA.drop_last().drop_last().push(DataTypeV::Bool),
            st2.heap,
        ),
{
    assert(tagsA.len() >= 2 && tagsA.last() == t && tagsA.drop_last().last() == t);
    assert(value_fits(st.stack.last(), t, st.heap));
    assert(st.stack.drop_last().last() == st.stack[st.stack.len() - 2]);
    assert(value_fits(st.stack.drop_last().last(), t, st.heap));
    match step(ops, boot_funcs(), st) {
        StepRes::Next(st2) => {
            let a2 = tagsA.drop_last().drop_last().push(DataTypeV::Bool);
            assert forall|i: int| 0 <= i < st2.stack.len() implies value_fits(
                st2.stack[i],
                a2[i],
                st2.heap,
            ) by {
                if i < st.stack.len() - 2 {
                    assert(st2.stack[i] == st.stack[i] && a2[i] == tagsA[i]);
                } else {
                    assert(st2.stack[i] == st2.stack.last());
                }
            }
        },
        _ => {},
    }
}

/// The safe-step case of `And` / `Or`.
proof fn bin_bool_sound(ops: Seq<OpCode>, st: StV, tagsL: Seq<DataTypeV>, tagsA: Seq<DataTypeV>)
    requires
        spec_check_bytecode(ops, st.ip, tagsL, tagsA, Seq::empty(), boot_funcs()) is Passed,
        st.frames.len() == 1,
        all_fit(st.stack, tagsA, st.heap),
        0 <= st.ip < ops.len(),
        ops[st.ip] is And || ops[st.ip] is Or,
    ensures
        step(ops, boot_funcs(), st) != StepRes::Abort(VmError::StackUnderflow),
        step(ops, boot_funcs(), st) != StepRes::Abort(VmError::TypeMismatch),
        step(ops, boot_funcs(), st) matches StepRes::Next(st2) ==> all_fit(
            st2.stack,
            tagsA.drop_last().drop_last().push(DataTypeV::Bool),
            st2.heap,
        ),
{
    assert(tagsA.len() >= 2 && tagsA.last() == DataTypeV::Bool && tagsA.drop_last().last()
        == DataTypeV::Bool);
    assert(value_fits(st.stack.last(), DataTypeV::Bool, st.heap));
    assert(st.stack.drop_last().last() == st.stack[st.stack.len() - 2]);
    assert(value_fits(st.stack.drop_last().last(), DataTypeV::Bool, st.heap));
    match step(ops, boot_funcs(), st) {
        StepRes::Next(st2) => {
            let a2 = tagsA.drop_last().drop_last().push(DataTypeV::Bool);
            assert forall|i: int| 0 <= i < st2.stack.len() implies value_fits(
                st2.stack[i],
                a2[i],
                st2.heap,
            ) by {
                if i < st.stack.len() - 2 {
                    assert(st2.stack[i] == st.stack[i] && a2[i] == tagsA[i]);
                } else {
                    assert(st2.stack[i] == st2.stack.last());
                }
            }
        },
        _ => {},
    }
}

/// The safe-step case of a call: in the booted registry every function is a
/// native whose argument tags, once fitted by the popped values, rule out a
/// tag mismatch inside the native.
#[verifier::rlimit(100)]
proof fn call_sound(ops: Seq<OpCode>, st: StV, tagsL: Seq<DataTypeV>, tagsA: Seq<DataTypeV>)
    requires
        spec_check_bytecode(ops, st.ip, tagsL, tagsA, Seq::empty(), boot_funcs()) is Passed,
        st.frames.len() == 1,
        all_fit(st.stack, tagsA, st.heap),
        all_fit(st.frames[0].locals, tagsL, st.heap),
        0 <= st.ip < ops.len(),
        ops[st.ip] is Call,
        st.heap.len() < usize::MAX,
    ensures
        step(ops, boot_funcs(), st) != StepRes::Abort(VmError::StackUnderflow),
        step(ops, boot_funcs(), st) != StepRes::Abort(VmError::TypeMismatch),
        step(ops, boot_funcs(), st) matches StepRes::Next(st2) ==> ({
            &&& st2.frames == st.frames
            &&& st2.ip == st.ip + 1
            &&& st2.heap.len() <= st.heap.len() + 1
            &&& all_fit(st2.frames[0].locals, tagsL, st2.heap)
            &&& exists|a2: Seq<DataTypeV>|
                spec_check_bytecode(ops, st2.ip, tagsL, a2, Seq::empty(), boot_funcs())
                    is Passed && #[trigger] all_fit(st2.stack, a2, st2.heap)
        }),
{
    let funcs = boot_funcs();
    let enc = ops[st.ip]->Call_encoded@;
    assert(!checked_contains(Seq::empty(), enc));
    assert(lookup_fn(funcs, enc) is Some);
    let f = lookup_fn(funcs, enc)->0;
    lemma_lookup_is_element(funcs, enc);
    let fi = choose|i: int| 0 <= i < funcs.len() && funcs[i] == f;
    assert(pop_args(tagsA, f.args) is Some);
    lemma_pop_args_decompose(tagsA, f.args);
    let restT = tagsA.subrange(0, tagsA.len() - f.args.len());
    let argc = f.args.len() as int;
    assert(st.stack.len() == tagsA.len());
    let argvals = st.stack.subrange(st.stack.len() - argc, st.stack.len() as int);
    let rest = st.stack.subrange(0, st.stack.len() - argc);
    assert(all_fit(argvals, f.args, st.heap)) by {
        assert forall|i: int| 0 <= i < argc implies value_fits(argvals[i], f.args[i], st.heap) by {
            assert(argvals[i] == st.stack[st.stack.len() - argc + i]);
            assert(f.args[i] == tagsA[tagsA.len() - argc + i]);
        }
    }
    assert(all_fit(rest, restT, st.heap)) by {
        assert forall|i: int| 0 <= i < rest.len() implies value_fits(rest[i], restT[i], st.heap) by {
            assert(rest[i] == st.stack[i] && restT[i] == tagsA[i]);
        }
    }
    assert(f.body is Native);
    let id = f.body->Native_0;
    lemma_native_effect_ret(id, argvals, rest, st.heap, st.out);
    match native_effect(id, argvals, rest, st.heap, st.out) {
        NatRes::AbortN(e) => {
            assert(e != VmError::TypeMismatch && e != VmError::StackUnderflow) by {
                assert(value_fits(argvals[0], f.args[0], st.heap)
                    || f.args.len() == 0);
                if f.args.len() >= 2 {
                    assert(value_fits(argvals[1], f.args[1], st.heap));
                }
            }
        },
        NatRes::Go { stack: s2, heap: h2, out: _ } => {
            let st2 = step(ops, funcs, st)->Next_0;
            assert(st2.stack == s2 && st2.heap == h2);
            lemma_all_fit_extend(st.frames[0].locals, tagsL, st.heap, h2);
            lemma_all_fit_extend(rest, restT, st.heap, h2);
            match f.ret {
                Option::Some(t) => {
                    assert(native_ret(id) == Option::Some(t));
                    let v = choose|v: Value| s2 == rest.push(v) && #[trigger] value_fits(v, t, h2);
                    let a2 = restT.push(t);
                    assert(all_fit(s2, a2, h2)) by {
                        assert forall|i: int| 0 <= i < s2.len() implies value_fits(
                            s2[i],
                            a2[i],
                            h2,
                        ) by {
                            if i < rest.len() {
                                assert(s2[i] == rest[i] && a2[i] == restT[i]);
                            } else {
                                assert(s2[i] == v);
                            }
                        }
                    }
                    assert(spec_check_bytecode(ops, st.ip + 1, tagsL, a2, Seq::empty(), funcs)
                        is Passed);
                },
                Option::None => {
                    assert(native_ret(id) is None);
                    assert(s2 == rest);
                    assert(spec_check_bytecode(ops, st.ip + 1, tagsL, restT, Seq::empty(), funcs)
                        is Passed);
                    assert(all_fit(s2, restT, h2));
                },
            }
        },
    }
}

/// Soundness of the checker on the straight-line fragment: a program of
/// straight-line shapes that the checker accepted, run on the booted
/// machine from a fitting configuration, never underflows the operand stack
/// and never meets a tag mismatch, however many steps are taken.
pub proof fn lemma_checker_sound(
    ops: Seq<OpCode>,
    st: StV,
    tagsL: Seq<DataTypeV>,
    tagsA: Seq<DataTypeV>,
    n: nat,
)
    requires
        straightline(ops),
        spec_check_bytecode(ops, st.ip, tagsL, tagsA, Seq::empty(), boot_funcs()) is Passed,
        st.frames.len() == 1,
        all_fit(st.stack, tagsA, st.heap),
        all_fit(st.frames[0].locals, tagsL, st.heap),
        0 <= st.ip <= ops.len(),
        st.heap.len() + n <= usize::MAX,
    ensures
        run_n(ops, boot_funcs(), st, n) != RunRes::Abort(VmError::StackUnderflow),
        run_n(ops, boot_funcs(), st, n) != RunRes::Abort(VmError::TypeMismatch),
    decreases n,
{
    if n > 0 {
        lemma_step_sound(ops, st, tagsL, tagsA);
        match step(ops, boot_funcs(), st) {
            StepRes::Next(st2) => {
                let a2 = choose|a2: Seq<DataTypeV>|
                    spec_check_bytecode(ops, st2.ip, tagsL, a2, Seq::empty(), boot_funcs())
                        is Passed && #[trigger] all_fit(st2.stack, a2, st2.heap);
                lemma_checker_sound(ops, st2, tagsL, a2, (n - 1) as nat);
            },
            _ => {},
        }
    }
}

/// The counting-loop program of the end-to-end scenarios: locals `i` and
/// `sum`, stepping `i` with `Inc`, accumulating with `Add` and `SetLocal`,
/// looping on `Less(Int)` through a conditional jump, then printing the
/// accumulated sum. `printSig` is the encoded signature of `print` at one
/// integer.
pub open spec fn counting_ops(printSig: String) -> Seq<OpCode> {
    seq![
        OpCode::Inc { typ: DataType::Int, index: 0 },
        OpCode::PushLocal { index: 1 },
        OpCode::PushLocal { index: 0 },
        OpCode::Add(DataType::Int),
        OpCode::SetLocal { index: 1, typ: DataType::Int },
        OpCode::PushLocal { index: 0 },
        OpCode::PushInt(10),
        OpCode::Less(DataType::Int),
        OpCode::Jmp { offset: -9isize, jmpType: JmpType::IfTrue },
        OpCode::PushLocal { index: 1 },
        OpCode::Call { encoded: printSig },
    ]
}

/// The loop's configuration at its head: counter `i`, accumulator `sum`.
pub open spec fn counting_state(i: int, sum: int) -> StV {
    StV {
        ip: 0,
        stack: Seq::empty(),
        frames: seq![
            FrameV { locals: seq![Value::Num(i as i64), Value::Num(sum as i64)], ret: 0 },
        ],
        heap: Seq::empty(),
        out: Seq::empty(),
    }
}

/// The sum of 1..=i.
spec fn tri(i: int) -> int
    decreases i,
{
    if i <= 0 {
        0
    } else {
        tri(i - 1) + i
    }
}

/// One pass of the loop body: nine steps take the machine from the loop
/// head at `(i, sum)` back to the head at `(i + 1, sum + i + 1)`, or, on
/// the last pass, to the print sequence.
#[verifier::rlimit(100)]
proof fn lemma_counting_iter(printSig: String, i: int, sum: int)
    requires
        0 <= i < 10,
        0 <= sum <= 45,
    ensures
        ({
            let ops = counting_ops(printSig);
            let fns = boot_funcs();
            if i + 1 < 10 {
                run_n(ops, fns, counting_state(i, sum), 9) == RunRes::More(
                    counting_state(i + 1, sum + i + 1),
                )
            } else {
                run_n(ops, fns, counting_state(i, sum), 9) == RunRes::More(
                    StV { ip: 9, ..counting_state(i + 1, sum + i + 1) },
                )
            }
        }),
{
    reveal_with_fuel(run_n, 10);
    let ops = counting_ops(printSig);
    let fns = boot_funcs();
    let s0 = counting_state(i, sum);
    let l1 = seq![Value::Num((i + 1) as i64), Value::Num(sum as i64)];
    let s1 = StV { ip: 1, frames: seq![FrameV { locals: l1, ret: 0 }], ..s0 };
    assert(step(ops, fns, s0) == StepRes::Next(s1)) by {
        assert(s0.frames.last().locals.update(0, Value::Num((i + 1) as i64)) =~= l1);
        assert(s0.frames.update(0int, FrameV { locals: l1, ret: 0 }) =~= s1.frames);
    }
    let s2 = StV { ip: 2, stack: seq![Value::Num(sum as i64)], ..s1 };
    assert(s1.frames.last().locals[1] == Value::Num(sum as i64));
    assert(step(ops, fns, s1) == StepRes::Next(s2));
    let s3 = StV { ip: 3, stack: seq![Value::Num(sum as i64), Value::Num((i + 1) as i64)], ..s1 };
    assert(s2.frames.last().locals[0] == Value::Num((i + 1) as i64));
    assert(step(ops, fns, s2) == StepRes::Next(s3)) by {
        assert(s2.stack.push(Value::Num((i + 1) as i64)) =~= s3.stack);
    }
    let s4 = StV { ip: 4, stack: seq![Value::Num((sum + i + 1) as i64)], ..s1 };
    assert(step(ops, fns, s3) == StepRes::Next(s4)) by {
        assert(s3.stack.drop_last() =~= seq![Value::Num(sum as i64)]);
        assert(s3.stack.drop_last().drop_last() =~= Seq::<Value>::empty());
        assert(s3.stack.drop_last().drop_last().push(Value::Num((sum + i + 1) as i64))
            =~= s4.stack);
    }
    let l5 = seq![Value::Num((i + 1) as i64), Value::Num((sum + i + 1) as i64)];
    let s5 = StV { ip: 5, stack: Seq::empty(), frames: seq![FrameV { locals: l5, ret: 0 }], ..s1 };
    assert(step(ops, fns, s4) == StepRes::Next(s5)) by {
        assert(s4.stack.drop_last() =~= Seq::<Value>::empty());
        assert(s4.frames.last().locals.update(1, Value::Num((sum + i + 1) as i64)) =~= l5);
        assert(s4.frames.update(0int, FrameV { locals: l5, ret: 0 }) =~= s5.frames);
    }
    let s6 = StV { ip: 6, stack: seq![Value::Num((i + 1) as i64)], ..s5 };
    assert(s5.frames.last().locals[0] == Value::Num((i + 1) as i64));
    assert(step(ops, fns, s5) == StepRes::Next(s6));
    let s7 = StV { ip: 7, stack: seq![Value::Num((i + 1) as i64), Value::Num(10i64)], ..s5 };
    assert(step(ops, fns, s6) == StepRes::Next(s7)) by {
        assert(s6.stack.push(Value::Num(10i64)) =~= s7.stack);
    }
    let s8 = StV { ip: 8, stack: seq![Value::Bol(i + 1 < 10)], ..s5 };
    assert(step(ops, fns, s7) == StepRes::Next(s8)) by {
        assert(s7.stack.drop_last() =~= seq![Value::Num((i + 1) as i64)]);
        assert(s7.stack.drop_last().drop_last() =~= Seq::<Value>::empty());
        assert(s7.stack.drop_last().drop_last().push(Value::Bol(i + 1 < 10)) =~= s8.stack);
    }
    if i + 1 < 10 {
        let s9 = counting_state(i + 1, sum + i + 1);
        assert(step(ops, fns, s8) == StepRes::Next(s9)) by {
            assert(s8.stack.drop_last() =~= Seq::<Value>::empty());
            assert(s9 == (StV { ip: 0, stack: s8.stack.drop_last(), ..s8 }));
        }
    } else {
        let s9 = StV { ip: 9, ..counting_state(i + 1, sum + i + 1) };
        assert(step(ops, fns, s8) == StepRes::Next(s9)) by {
            assert(s8.stack.drop_last() =~= Seq::<Value>::empty());
            assert(s9 == (StV { ip: 9, stack: s8.stack.drop_last(), ..s8 }));
        }
    }
}

/// `i` passes of the loop from a fresh start reach the loop head at
/// `(i, 1 + 2 + ... + i)`.
proof fn lemma_counting_chain(printSig: String, i: int)
    requires
        0 <= i <= 9,
    ensures
        run_n(counting_ops(printSig), boot_funcs(), counting_state(0, 0), (9 * i) as nat)
            == RunRes::More(counting_state(i, tri(i))),
        tri(i) * 2 == i * (i + 1),
        0 <= tri(i) <= 45,
    decreases i,
{
    let ops = counting_ops(printSig);
    let fns = boot_funcs();
    if i == 0 {
    } else {
        lemma_counting_chain(printSig, i - 1);
        assert(tri(i) * 2 == i * (i + 1)) by (nonlinear_arith)
            requires
                tri(i) == tri(i - 1) + i,
                tri(i - 1) * 2 == (i - 1) * i,
        ;
        assert(0 <= tri(i) <= 45) by (nonlinear_arith)
            requires
                tri(i) * 2 == i * (i + 1),
                0 <= i <= 9,
        ;
        lemma_counting_iter(printSig, i - 1, tri(i - 1));
        lemma_run_n_add(
            ops,
            fns,
            counting_state(0, 0),
            (9 * (i - 1)) as nat,
            counting_state(i - 1, tri(i - 1)),
            9,
        );
    }
}

/// The counting loop prints 55: from a fresh machine configuration with the
/// two integer locals zeroed, ninety-three semantic steps of the loop
/// program on the booted registry end the run with exactly `55` printed.
#[verifier::rlimit(100)]
pub proof fn lemma_counting_loop_prints_55(printSig: String)
    requires
        printSig@ == "print(int)"@,
    ensures
        ({
            let fin = StV {
                ip: 11,
                stack: Seq::empty(),
                frames: seq![
                    FrameV { locals: seq![Value::Num(10), Value::Num(55)], ret: 0 },
                ],
                heap: Seq::empty(),
                out: seq![OutItemV::Num(55)],
            };
            run_n(counting_ops(printSig), boot_funcs(), counting_state(0, 0), 93)
                == RunRes::DoneR(fin)
        }),
{
    let ops = counting_ops(printSig);
    let fns = boot_funcs();
    lemma_counting_chain(printSig, 9);
    assert(tri(9) == 45) by {
        reveal_with_fuel(tri, 11);
    }
    lemma_counting_iter(printSig, 9, 45);
    let s9 = StV { ip: 9, ..counting_state(10, 55) };
    lemma_run_n_add(ops, fns, counting_state(0, 0), 81, counting_state(9, 45), 9);
    assert(run_n(ops, fns, counting_state(0, 0), 90) == RunRes::More(s9));
    reveal_with_fuel(run_n, 4);
    let s10 = StV { ip: 10, stack: seq![Value::Num(55)], ..s9 };
    assert(s9.frames.last().locals[1] == Value::Num(55));
    assert(step(ops, fns, s9) == StepRes::Next(s10));
    assert(lookup_fn(fns, printSig@) == Option::Some(fns[0])) by {
        reveal_strlit("print(int)");
        reveal_strlit("print");
        reveal_strlit("(");
        reveal_strlit("int");
        reveal_strlit(")");
        assert(crate::vm::spec_sig("print"@, seq![DataTypeV::Int]) =~= "print(int)"@);
    }
    let fin = StV {
        ip: 11,
        stack: Seq::empty(),
        frames: seq![FrameV { locals: seq![Value::Num(10), Value::Num(55)], ret: 0 }],
        heap: Seq::empty(),
        out: seq![OutItemV::Num(55)],
    };
    assert(step(ops, fns, s10) == StepRes::Next(fin)) by {
        let argv = s10.stack.subrange(0, 1);
        let rest = s10.stack.subrange(0, 0);
        assert(argv =~= seq![Value::Num(55)]);
        assert(rest =~= Seq::<Value>::empty());
        assert(native_effect(NativeId::PrintInt, argv, rest, s10.heap, s10.out)
            == (NatRes::Go {
            stack: rest,
            heap: s10.heap,
            out: s10.out.push(OutItemV::Num(55)),
        }));
        assert(s10.out.push(OutItemV::Num(55)) =~= fin.out);
    }
    assert(step(ops, fns, fin) == StepRes::DoneR(fin));
    assert(run_n(ops, fns, s9, 3) == RunRes::DoneR(fin));
    lemma_run_n_add(ops, fns, counting_state(0, 0), 90, s9, 3);
}

} // verus!
