//! The bytecode checker: an abstract interpreter over the instruction stream
//! that shadows the operand stack with data-type tags and verifies that every
//! instruction's operands have the declared types.
//!
//! `spec_check_bytecode` and `spec_check_function` are the mathematical
//! definition of the discipline; `checkBytecode` and `checkFunction` decide
//! it. Jump targets are not joined: the verdict is a forward pass in stream
//! order, sound for straight-line code only.
use vstd::prelude::*;
use crate::types::{
    DataType, DataTypeV, dt_view, dt_view_seq, lemma_dt_view_seq, lemma_dt_view_seq_push,
    lemma_dt_view_seq_drop_last,
};
use crate::opcode::{OpCode, JmpType, SeekableOpcodes};
use crate::vm::{VirtualMachine, FuncV, meta_types, spec_sig, lookup_fn, funcs_view, genFunNameMeta};

verus! {

/// The checker's shadow of the operand stack: tags instead of values.
pub struct AbstractStack {
    pub stack: Vec<DataType>,
}

impl View for AbstractStack {
    type V = Seq<DataTypeV>;

    open spec fn view(&self) -> Seq<DataTypeV> {
        dt_view_seq(self.stack@)
    }
}

impl AbstractStack {
    pub fn new() -> (r: AbstractStack)
        ensures
            r@ == Seq::<DataTypeV>::empty(),
    {
        let r = AbstractStack { stack: Vec::new() };
        proof {
            assert(r@ =~= Seq::<DataTypeV>::empty());
        }
        r
    }

    /// Push one tag.
    pub fn push(&mut self, typ: DataType)
        ensures
            final(self)@ == old(self)@.push(typ@),
    {
        proof {
            lemma_dt_view_seq_push(self.stack@, typ);
        }
        self.stack.push(typ);
    }

    /// Pop the top tag, if any.
    pub fn pop(&mut self) -> (r: Option<DataType>)
        ensures
            match r {
                Option::None => old(self)@.len() == 0 && final(self)@ == old(self)@,
                Option::Some(t) => {
                    &&& old(self)@.len() > 0
                    &&& t@ == old(self)@.last()
                    &&& final(self)@ == old(self)@.drop_last()
                },
            },
    {
        proof {
            lemma_dt_view_seq(self.stack@);
            if self.stack@.len() > 0 {
                lemma_dt_view_seq_drop_last(self.stack@);
            }
        }
        self.stack.pop()
    }

    /// Number of tags on the abstract stack.
    pub fn len(&self) -> (r: usize)
        ensures
            r == self@.len(),
    {
        proof {
            lemma_dt_view_seq(self.stack@);
        }
        self.stack.len()
    }

    /// Pop the top tag and require it to equal `typ`; an empty stack fails.
    pub fn assertPop(&mut self, typ: &DataType) -> (r: bool)
        ensures
            old(self)@.len() == 0 ==> r == false && final(self)@ == old(self)@,
            old(self)@.len() > 0 ==> {
                &&& final(self)@ == old(self)@.drop_last()
                &&& r == (old(self)@.last() == typ@)
            },
    {
        match self.pop() {
            Option::None => false,
            Option::Some(v) => v.same(typ),
        }
    }
}

/// Result of a checker pass: the verdict, and on success the cursor, the
/// abstract stack and the checked set after the pass.
pub ghost enum CheckRes {
    Passed { i: int, stack: Seq<DataTypeV>, checked: Seq<Seq<char>> },
    Rejected,
}

/// Pop one expected tag from the abstract stack.
pub open spec fn pop1(st: Seq<DataTypeV>, t: DataTypeV) -> Option<Seq<DataTypeV>> {
    if st.len() > 0 && st.last() == t {
        Option::Some(st.drop_last())
    } else {
        Option::None
    }
}

/// Pop two operands of the same expected tag.
pub open spec fn pop2(st: Seq<DataTypeV>, t: DataTypeV) -> Option<Seq<DataTypeV>> {
    match pop1(st, t) {
        Option::Some(s) => pop1(s, t),
        Option::None => Option::None,
    }
}

/// Pop a call's arguments: the last parameter's tag is popped first.
pub open spec fn pop_args(st: Seq<DataTypeV>, args: Seq<DataTypeV>) -> Option<Seq<DataTypeV>>
    decreases args.len(),
{
    if args.len() == 0 {
        Option::Some(st)
    } else {
        match pop1(st, args.last()) {
            Option::Some(s) => pop_args(s, args.drop_last()),
            Option::None => Option::None,
        }
    }
}

/// Whether a signature is in the checked set.
pub open spec fn checked_contains(checked: Seq<Seq<char>>, sig: Seq<char>) -> bool {
    exists|j: int| 0 <= j < checked.len() && checked[j] == sig
}

/// Model of a set of signature strings.
pub open spec fn sigs_view(s: Seq<String>) -> Seq<Seq<char>> {
    s.map(|i: int, x: String| x@)
}

/// Recording one more signature extends the model by its characters.
pub proof fn lemma_sigs_view_push(s: Seq<String>, x: String)
    ensures
        sigs_view(s.push(x)) == sigs_view(s).push(x@),
{
    assert(sigs_view(s.push(x)) =~= sigs_view(s).push(x@));
}

/// Whether a signature string is already recorded in the checked set.
pub fn containsSig(checked: &Vec<String>, sig: &String) -> (r: bool)
    ensures
        r == checked_contains(sigs_view(checked@), sig@),
{
    let n = checked.len();
    let mut i: usize = 0;
    while i < n
        invariant
            n == checked@.len(),
            i <= n,
            forall|j: int| 0 <= j < i ==> sigs_view(checked@)[j] != sig@,
        decreases n - i,
    {
        if checked[i] == *sig {
            proof {
                assert(sigs_view(checked@)[i as int] == sig@);
            }
            return true;
        }
        i = i + 1;
    }
    false
}

/// The abstract interpretation of the stream from position `i` under locals
/// `locals`, abstract stack `stack` and checked set `checked`. Mirrors the
/// per-opcode discipline: what each opcode pops must carry the declared tag,
/// and what it pushes is recorded. A `Call` whose target is already checked
/// is trusted and leaves the abstract state unchanged; otherwise the callee
/// must be registered, its parameter tags are popped (last parameter first)
/// and its return tag, if any, is pushed. Division always pushes `Float`.
/// The reserved class and heap opcodes fail the check.
pub open spec fn spec_check_bytecode(
    ops: Seq<OpCode>,
    i: int,
    locals: Seq<DataTypeV>,
    stack: Seq<DataTypeV>,
    checked: Seq<Seq<char>>,
    funcs: Seq<FuncV>,
) -> CheckRes
    decreases ops.len() - i, 1int,
{
    if i >= ops.len() {
        CheckRes::Passed { i, stack, checked }
    } else {
        match ops[i] {
            OpCode::FunBegin => {
                match spec_check_function(ops, i + 1, stack, checked, funcs) {
                    CheckRes::Rejected => CheckRes::Rejected,
                    CheckRes::Passed { i: j, stack: st2, checked: ck2 } => {
                        if j >= i + 4 {
                            if j < ops.len() {
                                spec_check_bytecode(ops, j + 1, locals, st2, ck2, funcs)
                            } else {
                                CheckRes::Passed { i: j, stack: st2, checked: ck2 }
                            }
                        } else {
                            CheckRes::Rejected
                        }
                    },
                }
            },
            OpCode::FunName { .. } => CheckRes::Rejected,
            OpCode::LocalVarTable { .. } => CheckRes::Rejected,
            OpCode::FunReturn { .. } => CheckRes::Rejected,
            OpCode::FunEnd => CheckRes::Rejected,
            OpCode::F2I => {
                match pop1(stack, DataTypeV::Float) {
                    Option::Some(s) => spec_check_bytecode(
                        ops,
                        i + 1,
                        locals,
                        s.push(DataTypeV::Int),
                        checked,
                        funcs,
                    ),
                    Option::None => CheckRes::Rejected,
                }
            },
            OpCode::I2F => {
                match pop1(stack, DataTypeV::Int) {
                    Option::Some(s) => spec_check_bytecode(
                        ops,
                        i + 1,
                        locals,
                        s.push(DataTypeV::Float),
                        checked,
                        funcs,
                    ),
                    Option::None => CheckRes::Rejected,
                }
            },
            OpCode::PushInt(_) => spec_check_bytecode(
                ops,
                i + 1,
                locals,
                stack.push(DataTypeV::Int),
                checked,
                funcs,
            ),
            OpCode::PushFloat(_) => spec_check_bytecode(
                ops,
                i + 1,
                locals,
                stack.push(DataTypeV::Float),
                checked,
                funcs,
            ),
            OpCode::PushBool(_) => spec_check_bytecode(
                ops,
                i + 1,
                locals,
                stack.push(DataTypeV::Bool),
                checked,
                funcs,
            ),
            OpCode::PushChar(_) => spec_check_bytecode(
                ops,
                i + 1,
                locals,
                stack.push(DataTypeV::Char),
                checked,
                funcs,
            ),
            OpCode::Pop => {
                if stack.len() > 0 {
                    spec_check_bytecode(ops, i + 1, locals, stack.drop_last(), checked, funcs)
                } else {
                    CheckRes::Rejected
                }
            },
            OpCode::Dup => {
                if stack.len() > 0 {
                    spec_check_bytecode(ops, i + 1, locals, stack.push(stack.last()), checked, funcs)
                } else {
                    CheckRes::Rejected
                }
            },
            OpCode::PushLocal { index } => {
                if index < locals.len() {
                    spec_check_bytecode(
                        ops,
                        i + 1,
                        locals,
                        stack.push(locals[index as int]),
                        checked,
                        funcs,
                    )
                } else {
                    CheckRes::Rejected
                }
            },
            OpCode::SetLocal { index, typ } => {
                match pop1(stack, typ@) {
                    Option::Some(s) => {
                        if index < locals.len() && locals[index as int] == typ@ {
                            spec_check_bytecode(ops, i + 1, locals, s, checked, funcs)
                        } else {
                            CheckRes::Rejected
                        }
                    },
                    Option::None => CheckRes::Rejected,
                }
            },
            OpCode::Inc { typ, index } => {
                if index < locals.len() && locals[index as int] == typ@ {
                    spec_check_bytecode(ops, i + 1, locals, stack, checked, funcs)
                } else {
                    CheckRes::Rejected
                }
            },
            OpCode::Dec { typ, index } => {
                if index < locals.len() && locals[index as int] == typ@ {
                    spec_check_bytecode(ops, i + 1, locals, stack, checked, funcs)
                } else {
                    CheckRes::Rejected
                }
            },
            OpCode::Jmp { jmpType, .. } => {
                match jmpType {
                    JmpType::Unconditional => spec_check_bytecode(
                        ops,
                        i + 1,
                        locals,
                        stack,
                        checked,
                        funcs,
                    ),
                    _ => {
                        match pop1(stack, DataTypeV::Bool) {
                            Option::Some(s) => spec_check_bytecode(
                                ops,
                                i + 1,
                                locals,
                                s,
                                checked,
                                funcs,
                            ),
                            Option::None => CheckRes::Rejected,
                        }
                    },
                }
            },
            OpCode::Call { encoded } => {
                if checked_contains(checked, encoded@) {
                    spec_check_bytecode(ops, i + 1, locals, stack, checked, funcs)
                } else {
                    match lookup_fn(funcs, encoded@) {
                        Option::None => CheckRes::Rejected,
                        Option::Some(f) => {
                            match pop_args(stack, f.args) {
                                Option::None => CheckRes::Rejected,
                                Option::Some(s) => {
                                    let s2 = match f.ret {
                                        Option::Some(t) => s.push(t),
                                        Option::None => s,
                                    };
                                    spec_check_bytecode(ops, i + 1, locals, s2, checked, funcs)
                                },
                            }
                        },
                    }
                }
            },
            OpCode::Return => CheckRes::Passed { i: i + 1, stack, checked },
            OpCode::Add(t) => {
                match pop2(stack, t@) {
                    Option::Some(s) => spec_check_bytecode(
                        ops,
                        i + 1,
                        locals,
                        s.push(t@),
                        checked,
                        funcs,
                    ),
                    Option::None => CheckRes::Rejected,
                }
            },
            OpCode::Sub(t) => {
                match pop2(stack, t@) {
                    Option::Some(s) => spec_check_bytecode(
                        ops,
                        i + 1,
                        locals,
                        s.push(t@),
                        checked,
                        funcs,
                    ),
                    Option::None => CheckRes::Rejected,
                }
            },
            OpCode::Mul(t) => {
                match pop2(stack, t@) {
                    Option::Some(s) => spec_check_bytecode(
                        ops,
                        i + 1,
                        locals,
                        s.push(t@),
                        checked,
                        funcs,
                    ),
                    Option::None => CheckRes::Rejected,
                }
            },
            OpCode::Div(t) => {
                match pop2(stack, t@) {
                    Option::Some(s) => spec_check_bytecode(
                        ops,
                        i + 1,
                        locals,
                        s.push(DataTypeV::Float),
                        checked,
                        funcs,
                    ),
                    Option::None => CheckRes::Rejected,
                }
            },
            OpCode::Equals(t) => {
                match pop2(stack, t@) {
                    Option::Some(s) => spec_check_bytecode(
                        ops,
                        i + 1,
                        locals,
                        s.push(DataTypeV::Bool),
                        checked,
                        funcs,
                    ),
                    Option::None => CheckRes::Rejected,
                }
            },
            OpCode::Greater(t) => {
                match pop2(stack, t@) {
                    Option::Some(s) => spec_check_bytecode(
                        ops,
                        i + 1,
                        locals,
                        s.push(DataTypeV::Bool),
                        checked,
                        funcs,
                    ),
                    Option::None => CheckRes::Rejected,
                }
            },
            OpCode::Less(t) => {
                match pop2(stack, t@) {
                    Option::Some(s) => spec_check_bytecode(
                        ops,
                        i + 1,
                        locals,
                        s.push(DataTypeV::Bool),
                        checked,
                        funcs,
                    ),
                    Option::None => CheckRes::Rejected,
                }
            },
            OpCode::And => {
                match pop2(stack, DataTypeV::Bool) {
                    Option::Some(s) => spec_check_bytecode(
                        ops,
                        i + 1,
                        locals,
                        s.push(DataTypeV::Bool),
                        checked,
                        funcs,
                    ),
                    Option::None => CheckRes::Rejected,
                }
            },
            OpCode::Or => {
                match pop2(stack, DataTypeV::Bool) {
                    Option::Some(s) => spec_check_bytecode(
                        ops,
                        i + 1,
                        locals,
                        s.push(DataTypeV::Bool),
                        checked,
                        funcs,
                    ),
                    Option::None => CheckRes::Rejected,
                }
            },
            OpCode::Not => {
                match pop1(stack, DataTypeV::Bool) {
                    Option::Some(s) => spec_check_bytecode(
                        ops,
                        i + 1,
                        locals,
                        s.push(DataTypeV::Bool),
                        checked,
                        funcs,
                    ),
                    Option::None => CheckRes::Rejected,
                }
            },
            OpCode::ClassBegin => CheckRes::Rejected,
            OpCode::ClassName { .. } => CheckRes::Rejected,
            OpCode::ClassField { .. } => CheckRes::Rejected,
            OpCode::ClassEnd => CheckRes::Rejected,
            OpCode::New { .. } => CheckRes::Rejected,
            OpCode::GetField { .. } => CheckRes::Rejected,
            OpCode::SetField { .. } => CheckRes::Rejected,
            OpCode::ArrayNew(_) => CheckRes::Rejected,
            OpCode::ArrayStore(_) => CheckRes::Rejected,
            OpCode::ArrayLoad(_) => CheckRes::Rejected,
            OpCode::ArrayLength => CheckRes::Rejected,
        }
    }
}

/// Whether a well-formed function header stands at position `p`: the three
/// meta-opcodes in order, with no more declared parameters than table
/// entries.
pub open spec fn fun_header_ok(ops: Seq<OpCode>, p: int) -> bool {
    &&& p + 3 <= ops.len()
    &&& ops[p] is FunName
    &&& (ops[p + 1] matches OpCode::LocalVarTable { typ, argsCount } && argsCount <= typ.len())
    &&& ops[p + 2] is FunReturn
}

/// The prefix order on recorded signature sets is transitive.
pub proof fn lemma_prefix_trans(a: Seq<String>, b: Seq<String>, c: Seq<String>)
    requires
        a.is_prefix_of(b),
        b.is_prefix_of(c),
    ensures
        a.is_prefix_of(c),
{
    assert(a =~= c.subrange(0, a.len() as int));
}

/// Check of one function block whose `FunName` stands at position `p`: read
/// the three meta-opcodes, record the encoded signature in the checked set,
/// seed the abstract locals from the declared table, check the body, and
/// require the declared stack discipline: with return type `T` the abstract
/// stack has grown by exactly one slot of tag `T`, with none it is unchanged.
pub open spec fn spec_check_function(
    ops: Seq<OpCode>,
    p: int,
    stack: Seq<DataTypeV>,
    checked: Seq<Seq<char>>,
    funcs: Seq<FuncV>,
) -> CheckRes
    decreases ops.len() - p, 0int,
{
    if p + 3 > ops.len() {
        CheckRes::Rejected
    } else {
        match (ops[p], ops[p + 1], ops[p + 2]) {
            (
                OpCode::FunName { name },
                OpCode::LocalVarTable { typ: vars, argsCount },
                OpCode::FunReturn { typ: ret },
            ) => {
                if argsCount > vars.len() {
                    CheckRes::Rejected
                } else {
                    let locals2 = meta_types(vars@);
                    let sig = spec_sig(name@, meta_types(vars@.subrange(0, argsCount as int)));
                    let ck2 = checked.push(sig);
                    let size = stack.len();
                    match spec_check_bytecode(ops, p + 3, locals2, stack, ck2, funcs) {
                        CheckRes::Rejected => CheckRes::Rejected,
                        CheckRes::Passed { i: j, stack: st2, checked: ck3 } => {
                            match ret {
                                Option::None => {
                                    if st2.len() == size {
                                        CheckRes::Passed { i: j, stack: st2, checked: ck3 }
                                    } else {
                                        CheckRes::Rejected
                                    }
                                },
                                Option::Some(t) => {
                                    if st2.len() == size + 1 && st2.last() == t@ {
                                        CheckRes::Passed { i: j, stack: st2, checked: ck3 }
                                    } else {
                                        CheckRes::Rejected
                                    }
                                },
                            }
                        },
                    }
                }
            },
            _ => CheckRes::Rejected,
        }
    }
}

/// Decide `spec_check_bytecode` for the stream from the cursor's position.
/// On acceptance the cursor, the abstract stack and the checked set are left
/// exactly as the specification says.
#[verifier::loop_isolation(false)]
pub fn checkBytecode(
    opCodes: &mut SeekableOpcodes,
    abstractLocals: &mut Vec<DataType>,
    abstractStack: &mut AbstractStack,
    vm: &VirtualMachine,
    checkedFunctions: &mut Vec<String>,
) -> (r: bool)
    requires
        vm.wf(),
    ensures
        final(opCodes).opCodes == old(opCodes).opCodes,
        *final(abstractLocals) == *old(abstractLocals),
        ({
            let res = spec_check_bytecode(
                old(opCodes).opCodes@,
                old(opCodes).index as int,
                dt_view_seq(old(abstractLocals)@),
                old(abstractStack)@,
                sigs_view(old(checkedFunctions)@),
                funcs_view(vm.functions@),
            );
            &&& r == (res is Passed)
            &&& (res is Passed ==> {
                &&& final(opCodes).index == res->Passed_i
                &&& final(abstractStack)@ == res->Passed_stack
                &&& sigs_view(final(checkedFunctions)@) == res->Passed_checked
            })
        }),
        r ==> final(opCodes).index >= old(opCodes).index,
        old(opCodes).index <= old(opCodes).opCodes@.len() ==> final(opCodes).index <= old(
            opCodes,
        ).opCodes@.len(),
        old(checkedFunctions)@.is_prefix_of(final(checkedFunctions)@),
    decreases opCodes.opCodes@.len() - opCodes.index, 1int,
{
    let ghost ops = old(opCodes).opCodes@;
    let ghost locs = dt_view_seq(old(abstractLocals)@);
    let ghost funcs = funcs_view(vm.functions@);
    let ghost i0 = old(opCodes).index as int;
    let ghost st0 = old(abstractStack)@;
    let ghost ck0 = sigs_view(old(checkedFunctions)@);
    if opCodes.index >= opCodes.opCodes.len() {
        return true;
    }
    loop
        invariant
            vm.wf(),
            opCodes.opCodes == old(opCodes).opCodes,
            *abstractLocals == *old(abstractLocals),
            opCodes.index <= opCodes.opCodes@.len(),
            opCodes.index >= i0,
            spec_check_bytecode(ops, i0, locs, st0, ck0, funcs) == spec_check_bytecode(
                ops,
                opCodes.index as int,
                locs,
                abstractStack@,
                sigs_view(checkedFunctions@),
                funcs,
            ),
            old(checkedFunctions)@.is_prefix_of(checkedFunctions@),
        decreases opCodes.opCodes@.len() - opCodes.index,
    {
        if opCodes.index >= opCodes.opCodes.len() {
            proof {
                assert(spec_check_bytecode(
                    ops,
                    opCodes.index as int,
                    locs,
                    abstractStack@,
                    sigs_view(checkedFunctions@),
                    funcs,
                ) == (CheckRes::Passed {
                    i: opCodes.index as int,
                    stack: abstractStack@,
                    checked: sigs_view(checkedFunctions@),
                }));
            }
            return true;
        }
        let i = opCodes.index;
        let ghost iA = i as int;
        let ghost stA = abstractStack@;
        let ghost ckA = sigs_view(checkedFunctions@);
        opCodes.index = i + 1;
        match &opCodes.opCodes[i] {
            OpCode::FunBegin => {
                let ghost ckPre = checkedFunctions@;
                if !checkFunction(opCodes, abstractStack, vm, checkedFunctions) {
                    proof {
                        assert(spec_check_function(ops, iA + 1, stA, ckA, funcs) is Rejected);
                        assert(spec_check_bytecode(ops, iA, locs, stA, ckA, funcs)
                            == CheckRes::Rejected);
                        lemma_prefix_trans(old(checkedFunctions)@, ckPre, checkedFunctions@);
                    }
                    return false;
                }
                proof {
                    assert(spec_check_function(ops, iA + 1, stA, ckA, funcs) is Passed);
                    assert(old(checkedFunctions)@.is_prefix_of(checkedFunctions@)) by {
                        lemma_prefix_trans(
                            old(checkedFunctions)@,
                            ckPre,
                            checkedFunctions@,
                        );
                    }
                }
                if opCodes.index < opCodes.opCodes.len() {
                    opCodes.index = opCodes.index + 1;
                } else {
                    return true;
                }
            },
            OpCode::FunName { .. } => {
                return false;
            },
            OpCode::LocalVarTable { .. } => {
                return false;
            },
            OpCode::FunReturn { .. } => {
                return false;
            },
            OpCode::FunEnd => {
                return false;
            },
            OpCode::F2I => {
                if !abstractStack.assertPop(&DataType::Float) {
                    return false;
                }
                abstractStack.push(DataType::Int);
            },
            OpCode::I2F => {
                if !abstractStack.assertPop(&DataType::Int) {
                    return false;
                }
                abstractStack.push(DataType::Float);
            },
            OpCode::PushInt(_) => {
                abstractStack.push(DataType::Int);
            },
            OpCode::PushFloat(_) => {
                abstractStack.push(DataType::Float);
            },
            OpCode::PushBool(_) => {
                abstractStack.push(DataType::Bool);
            },
            OpCode::PushChar(_) => {
                abstractStack.push(DataType::Char);
            },
            OpCode::Pop => {
                match abstractStack.pop() {
                    Option::None => {
                        return false;
                    },
                    Option::Some(_) => {},
                }
            },
            OpCode::Dup => {
                match abstractStack.pop() {
                    Option::None => {
                        return false;
                    },
                    Option::Some(v) => {
                        let d = v.duplicate();
                        abstractStack.push(v);
                        abstractStack.push(d);
                        proof {
                            assert(abstractStack@ =~= stA.push(stA.last()));
                        }
                    },
                }
            },
            OpCode::PushLocal { index } => {
                proof {
                    lemma_dt_view_seq(abstractLocals@);
                }
                let ix = *index;
                if ix >= abstractLocals.len() {
                    return false;
                }
                let t = abstractLocals[ix].duplicate();
                abstractStack.push(t);
                proof {
                    lemma_dt_view_seq(abstractLocals@);
                }
            },
            OpCode::SetLocal { index, typ } => {
                proof {
                    lemma_dt_view_seq(abstractLocals@);
                }
                let ix = *index;
                if !abstractStack.assertPop(typ) {
                    return false;
                }
                if ix >= abstractLocals.len() {
                    return false;
                }
                let okLocal = abstractLocals[ix].same(typ);
                proof {
                    lemma_dt_view_seq(abstractLocals@);
                }
                if !okLocal {
                    return false;
                }
            },
            OpCode::Inc { typ, index } => {
                proof {
                    lemma_dt_view_seq(abstractLocals@);
                }
                let ix = *index;
                if ix >= abstractLocals.len() {
                    return false;
                }
                let okLocal = abstractLocals[ix].same(typ);
                proof {
                    lemma_dt_view_seq(abstractLocals@);
                }
                if !okLocal {
                    return false;
                }
            },
            OpCode::Dec { typ, index } => {
                proof {
                    lemma_dt_view_seq(abstractLocals@);
                }
                let ix = *index;
                if ix >= abstractLocals.len() {
                    return false;
                }
                let okLocal = abstractLocals[ix].same(typ);
                proof {
                    lemma_dt_view_seq(abstractLocals@);
                }
                if !okLocal {
                    return false;
                }
            },
            OpCode::Jmp { jmpType, .. } => {
                match jmpType {
                    JmpType::Unconditional => {},
                    _ => {
                        if !abstractStack.assertPop(&DataType::Bool) {
                            return false;
                        }
                    },
                }
            },
            OpCode::Call { encoded } => {
                if containsSig(checkedFunctions, encoded) {
                } else {
                    match vm.resolve(encoded) {
                        Option::None => {
                            return false;
                        },
                        Option::Some(fx) => {
                            let ghost enc = encoded@;
                            let ghost fv = vm.functions@[fx as int]@;
                            let argc = vm.functions[fx].argAmount;
                            proof {
                                assert(vm.functions@[fx as int].wf());
                                assert(fv.args.len() == argc);
                            }
                            let mut x: usize = argc;
                            proof {
                                assert(fv.args.subrange(0, argc as int) =~= fv.args);
                            }
                            while x > 0
                                invariant
                                    x <= argc,
                                    fx < vm.functions@.len(),
                                    vm.functions@[fx as int].wf(),
                                    fv == vm.functions@[fx as int]@,
                                    argc == vm.functions@[fx as int].argAmount,
                                    fv.args.len() == argc,
                                    pop_args(stA, fv.args) == pop_args(
                                        abstractStack@,
                                        fv.args.subrange(0, x as int),
                                    ),
                                    opCodes.opCodes == old(opCodes).opCodes,
                                    *abstractLocals == *old(abstractLocals),
                                    opCodes.index == iA + 1,
                                    opCodes.index <= opCodes.opCodes@.len(),
                                    iA >= i0,
                                    sigs_view(checkedFunctions@) == ckA,
                                    spec_check_bytecode(ops, i0, locs, st0, ck0, funcs)
                                        == spec_check_bytecode(ops, iA, locs, stA, ckA, funcs),
                                    0 <= iA < ops.len(),
                                    ops[iA] is Call,
                                    ops[iA]->Call_encoded@ == enc,
                                    !checked_contains(ckA, enc),
                                    lookup_fn(funcs, enc) == Option::Some(fv),
                                decreases x,
                            {
                                let ok = abstractStack.assertPop(
                                    &vm.functions[fx].varTable[x - 1].typ,
                                );
                                proof {
                                    let pre = fv.args.subrange(0, x as int);
                                    assert(pre.last() == fv.args[x - 1]);
                                    assert(fv.args[x - 1] == meta_types(
                                        vm.functions@[fx as int].varTable@.subrange(
                                            0,
                                            argc as int,
                                        ),
                                    )[x - 1]);
                                    assert(fv.args[x - 1] == vm.functions@[fx as int].varTable@[x
                                        - 1].typ@);
                                    assert(pre.drop_last() =~= fv.args.subrange(0, x - 1));
                                }
                                if !ok {
                                    proof {
                                        assert(pop_args(stA, fv.args) is None);
                                        assert(spec_check_bytecode(ops, iA, locs, stA, ckA, funcs)
                                            == CheckRes::Rejected);
                                    }
                                    return false;
                                }
                                x = x - 1;
                            }
                            proof {
                                assert(fv.args.subrange(0, 0) =~= Seq::<DataTypeV>::empty());
                                assert(pop_args(stA, fv.args) == Option::Some(abstractStack@));
                            }
                            match &vm.functions[fx].returnType {
                                Option::None => {},
                                Option::Some(t) => {
                                    let d = t.duplicate();
                                    abstractStack.push(d);
                                },
                            }
                        },
                    }
                }
            },
            OpCode::Return => {
                return true;
            },
            OpCode::Add(t) => {
                if !abstractStack.assertPop(t) {
                    return false;
                }
                if !abstractStack.assertPop(t) {
                    return false;
                }
                let d = t.duplicate();
                abstractStack.push(d);
            },
            OpCode::Sub(t) => {
                if !abstractStack.assertPop(t) {
                    return false;
                }
                if !abstractStack.assertPop(t) {
                    return false;
                }
                let d = t.duplicate();
                abstractStack.push(d);
            },
            OpCode::Mul(t) => {
                if !abstractStack.assertPop(t) {
                    return false;
                }
                if !abstractStack.assertPop(t) {
                    return false;
                }
                let d = t.duplicate();
                abstractStack.push(d);
            },
            OpCode::Div(t) => {
                if !abstractStack.assertPop(t) {
                    return false;
                }
                if !abstractStack.assertPop(t) {
                    return false;
                }
                abstractStack.push(DataType::Float);
            },
            OpCode::Equals(t) => {
                if !abstractStack.assertPop(t) {
                    return false;
                }
                if !abstractStack.assertPop(t) {
                    return false;
                }
                abstractStack.push(DataType::Bool);
            },
            OpCode::Greater(t) => {
                if !abstractStack.assertPop(t) {
                    return false;
                }
                if !abstractStack.assertPop(t) {
                    return false;
                }
                abstractStack.push(DataType::Bool);
            },
            OpCode::Less(t) => {
                if !abstractStack.assertPop(t) {
                    return false;
                }
                if !abstractStack.assertPop(t) {
                    return false;
                }
                abstractStack.push(DataType::Bool);
            },
            OpCode::And => {
                if !abstractStack.assertPop(&DataType::Bool) {
                    return false;
                }
                if !abstractStack.assertPop(&DataType::Bool) {
                    return false;
                }
                abstractStack.push(DataType::Bool);
            },
            OpCode::Or => {
                if !abstractStack.assertPop(&DataType::Bool) {
                    return false;
                }
                if !abstractStack.assertPop(&DataType::Bool) {
                    return false;
                }
                abstractStack.push(DataType::Bool);
            },
            OpCode::Not => {
                if !abstractStack.assertPop(&DataType::Bool) {
                    return false;
                }
                abstractStack.push(DataType::Bool);
            },
            OpCode::ClassBegin => {
                return false;
            },
            OpCode::ClassName { .. } => {
                return false;
            },
            OpCode::ClassField { .. } => {
                return false;
            },
            OpCode::ClassEnd => {
                return false;
            },
            OpCode::New { .. } => {
                return false;
            },
            OpCode::GetField { .. } => {
                return false;
            },
            OpCode::SetField { .. } => {
                return false;
            },
            OpCode::ArrayNew(_) => {
                return false;
            },
            OpCode::ArrayStore(_) => {
                return false;
            },
            OpCode::ArrayLoad(_) => {
                return false;
            },
            OpCode::ArrayLength => {
                return false;
            },
        }
    }
}

/// Check one function block, the cursor standing on its `FunName`: record
/// the signature, check the body against the declared locals, and require
/// the declared return discipline on the abstract stack.
#[verifier::loop_isolation(false)]
pub fn checkFunction(
    opCodes: &mut SeekableOpcodes,
    abstractStack: &mut AbstractStack,
    vm: &VirtualMachine,
    checkedFunctions: &mut Vec<String>,
) -> (r: bool)
    requires
        vm.wf(),
        old(opCodes).index <= old(opCodes).opCodes@.len(),
    ensures
        final(opCodes).opCodes == old(opCodes).opCodes,
        ({
            let res = spec_check_function(
                old(opCodes).opCodes@,
                old(opCodes).index as int,
                old(abstractStack)@,
                sigs_view(old(checkedFunctions)@),
                funcs_view(vm.functions@),
            );
            &&& r == (res is Passed)
            &&& (res is Passed ==> {
                &&& final(opCodes).index == res->Passed_i
                &&& final(abstractStack)@ == res->Passed_stack
                &&& sigs_view(final(checkedFunctions)@) == res->Passed_checked
            })
        }),
        r ==> final(opCodes).index >= old(opCodes).index + 3,
        old(opCodes).index <= old(opCodes).opCodes@.len() ==> final(opCodes).index <= old(
            opCodes,
        ).opCodes@.len(),
        old(checkedFunctions)@.is_prefix_of(final(checkedFunctions)@),
        !fun_header_ok(old(opCodes).opCodes@, old(opCodes).index as int) ==> r == false
            && *final(abstractStack) == *old(abstractStack) && *final(checkedFunctions) == *old(
            checkedFunctions,
        ) && final(opCodes).index == old(opCodes).index,
    decreases opCodes.opCodes@.len() - opCodes.index, 0int,
{
    let ghost ops = old(opCodes).opCodes@;
    let ghost funcs = funcs_view(vm.functions@);
    let ghost p0 = old(opCodes).index as int;
    let ghost st0 = old(abstractStack)@;
    let ghost ck0 = sigs_view(old(checkedFunctions)@);
    let p = opCodes.index;
    let len = opCodes.opCodes.len();
    if len - p < 3 {
        return false;
    }
    let name: String = match &opCodes.opCodes[p] {
        OpCode::FunName { name } => name.clone(),
        _ => {
            return false;
        },
    };
    let argc: usize;
    match &opCodes.opCodes[p + 1] {
        OpCode::LocalVarTable { typ: _, argsCount } => {
            argc = *argsCount;
        },
        _ => {
            return false;
        },
    }
    let mut locals2: Vec<DataType> = Vec::new();
    let genName: String;
    match &opCodes.opCodes[p + 1] {
        OpCode::LocalVarTable { typ: vars, argsCount: _ } => {
            if argc > vars.len() {
                return false;
            }
            let m = vars.len();
            let mut k: usize = 0;
            while k < m
                invariant
                    m == vars@.len(),
                    k <= m,
                    locals2@.len() == k,
                    forall|j: int| 0 <= j < k ==> locals2@[j]@ == vars@[j].typ@,
                decreases m - k,
            {
                locals2.push(vars[k].typ.duplicate());
                k = k + 1;
            }
            proof {
                lemma_dt_view_seq(locals2@);
                assert(dt_view_seq(locals2@) =~= meta_types(vars@));
            }
            genName = genFunNameMeta(&name, vars, argc);
        },
        _ => {
            return false;
        },
    }
    let retC: Option<DataType> = match &opCodes.opCodes[p + 2] {
        OpCode::FunReturn { typ } => match typ {
            Option::None => Option::None,
            Option::Some(t) => Option::Some(t.duplicate()),
        },
        _ => {
            return false;
        },
    };
    proof {
        lemma_sigs_view_push(checkedFunctions@, genName);
    }
    checkedFunctions.push(genName);
    let size = abstractStack.len();
    opCodes.index = p + 3;
    if !checkBytecode(opCodes, &mut locals2, abstractStack, vm, checkedFunctions) {
        return false;
    }
    match &retC {
        Option::None => {
            if abstractStack.len() != size {
                return false;
            }
            true
        },
        Option::Some(t) => {
            let la = abstractStack.len();
            if la == 0 || la - 1 != size {
                return false;
            }
            let l = abstractStack.stack.len();
            proof {
                lemma_dt_view_seq(abstractStack.stack@);
                lemma_dt_view_seq_drop_last(abstractStack.stack@);
            }
            let lastOk = abstractStack.stack[l - 1].same(t);
            if !lastOk {
                return false;
            }
            true
        },
    }
}

} // verus!
