//! Function records, the canonical signature encoding, and the machine's
//! registry of bytecode and native functions.
use vstd::prelude::*;
use vstd::string::*;
use crate::types::{DataType, DataTypeV, dt_view};
use crate::value::{Value, Obj, OutItem};

verus! {

/// Name and declared type of one local variable; the first `argAmount`
/// entries of a function's table are its parameters.
#[derive(Debug)]
pub struct VariableMetadata {
    pub name: String,
    pub typ: DataType,
}

/// The built-in native functions the machine can dispatch to.
#[derive(Clone, Copy, Debug, PartialEq, Eq, Structural)]
pub enum NativeId {
    PrintInt,
    PrintFloat,
    PrintString,
    AssertIntInt,
    MakeString,
    AppendChar,
    StrLen,
    GetChar,
    EndsWith,
    ArrayLen,
    MakeArray,
}

/// A function body: a position in the shared instruction stream, or a native.
#[derive(Debug)]
pub enum FuncBody {
    Bytecode { start: usize },
    Native { id: NativeId },
}

/// Model of a function body.
pub ghost enum FuncBodyV {
    Bytecode(int),
    Native(NativeId),
}

/// A registered function, keyed by its encoded signature.
#[derive(Debug)]
pub struct Func {
    pub encodedName: String,
    pub argAmount: usize,
    pub varTable: Vec<VariableMetadata>,
    pub returnType: Option<DataType>,
    pub body: FuncBody,
}

/// Model of a registered function.
pub ghost struct FuncV {
    pub sig: Seq<char>,
    pub args: Seq<DataTypeV>,
    pub locals: Seq<DataTypeV>,
    pub ret: Option<DataTypeV>,
    pub body: FuncBodyV,
}

/// The declared types of a run of variable metadata, as models.
pub open spec fn meta_types(s: Seq<VariableMetadata>) -> Seq<DataTypeV> {
    s.map(|i: int, v: VariableMetadata| v.typ@)
}

impl View for Func {
    type V = FuncV;

    open spec fn view(&self) -> FuncV {
        FuncV {
            sig: self.encodedName@,
            args: meta_types(self.varTable@.subrange(0, self.argAmount as int)),
            locals: meta_types(self.varTable@),
            ret: match self.returnType {
                Option::None => Option::None,
                Option::Some(t) => Option::Some(t@),
            },
            body: match self.body {
                FuncBody::Bytecode { start } => FuncBodyV::Bytecode(start as int),
                FuncBody::Native { id } => FuncBodyV::Native(id),
            },
        }
    }
}

impl Func {
    /// A function record is well formed when its parameters are a prefix of
    /// its variable table.
    pub open spec fn wf(&self) -> bool {
        self.argAmount <= self.varTable@.len()
    }
}

/// Canonical rendering of a data type inside a signature: `int`, `float`,
/// `bool`, `char`, the bare name for objects, `[T]` for arrays, `Any`.
pub open spec fn render_type(t: DataTypeV) -> Seq<char>
    decreases t,
{
    match t {
        DataTypeV::Int => "int"@,
        DataTypeV::Float => "float"@,
        DataTypeV::Bool => "bool"@,
        DataTypeV::Char => "char"@,
        DataTypeV::Object { name, .. } => name,
        DataTypeV::Array(e) => "["@ + render_type(*e) + "]"@,
        DataTypeV::Any => "Any"@,
    }
}

/// Comma-separated renderings of a parameter list.
pub open spec fn render_params(ps: Seq<DataTypeV>) -> Seq<char>
    decreases ps.len(),
{
    if ps.len() == 0 {
        Seq::empty()
    } else if ps.len() == 1 {
        render_type(ps[0])
    } else {
        render_params(ps.drop_last()) + ","@ + render_type(ps.last())
    }
}

/// The encoded signature `name(p1,p2,...)`.
pub open spec fn spec_sig(name: Seq<char>, ps: Seq<DataTypeV>) -> Seq<char> {
    name + "("@ + render_params(ps) + ")"@
}

/// Canonical rendering of one data type.
pub fn renderType(t: &DataType) -> (r: String)
    ensures
        r@ == render_type(t@),
    decreases t,
{
    match t {
        DataType::Int => "int".to_owned(),
        DataType::Float => "float".to_owned(),
        DataType::Bool => "bool".to_owned(),
        DataType::Char => "char".to_owned(),
        DataType::Any => "Any".to_owned(),
        DataType::Object { name, .. } => name.clone(),
        DataType::Array(e) => {
            let mut s = "[".to_owned();
            let inner = renderType(e);
            s.append(inner.as_str());
            s.append("]");
            s
        }
    }
}

/// The encoded signature of `name` with the first `argsCount` entries of the
/// variable table as parameters.
pub fn genFunNameMeta(name: &String, args: &Vec<VariableMetadata>, argsCount: usize) -> (r: String)
    requires
        argsCount <= args@.len(),
    ensures
        r@ == spec_sig(name@, meta_types(args@.subrange(0, argsCount as int))),
{
    let mut s = name.clone();
    s.append("(");
    let mut i: usize = 0;
    while i < argsCount
        invariant
            argsCount <= args@.len(),
            i <= argsCount,
            s@ == name@ + "("@ + render_params(meta_types(args@.subrange(0, i as int))),
        decreases argsCount - i,
    {
        if i > 0 {
            s.append(",");
        }
        let rendered = renderType(&args[i].typ);
        s.append(rendered.as_str());
        proof {
            let prev = meta_types(args@.subrange(0, i as int));
            let cur = meta_types(args@.subrange(0, i + 1 as int));
            assert(cur.drop_last() =~= prev);
            assert(cur.last() == args@[i as int].typ@);
            if i == 0 {
                assert(render_params(cur) == render_type(cur[0]));
            } else {
                assert(render_params(cur) == render_params(prev) + ","@ + render_type(cur.last()));
            }
        }
        i = i + 1;
    }
    s.append(")");
    proof {
        assert(args@.subrange(0, argsCount as int) == args@.subrange(0, i as int));
    }
    s
}

/// The machine: its function registry, operand stack, heap, and the output
/// its programs have printed so far.
#[derive(Debug)]
pub struct VirtualMachine {
    pub functions: Vec<Func>,
    pub stack: Vec<Value>,
    pub heap: Vec<Obj>,
    pub output: Vec<OutItem>,
}

/// Element-wise model of the registry.
pub open spec fn funcs_view(s: Seq<Func>) -> Seq<FuncV> {
    s.map(|i: int, f: Func| f@)
}

/// First registered function with the given signature.
pub open spec fn lookup_fn(funcs: Seq<FuncV>, sig: Seq<char>) -> Option<FuncV>
    decreases funcs.len(),
{
    if funcs.len() == 0 {
        Option::None
    } else if funcs[0].sig == sig {
        Option::Some(funcs[0])
    } else {
        lookup_fn(funcs.drop_first(), sig)
    }
}

impl VirtualMachine {
    /// All registered functions are well formed.
    pub open spec fn wf(&self) -> bool {
        forall|i: int| 0 <= i < self.functions@.len() ==> (#[trigger] self.functions@[i]).wf()
    }

    pub fn new() -> (r: VirtualMachine)
        ensures
            r.functions@.len() == 0,
            r.stack@.len() == 0,
            r.heap@.len() == 0,
            r.output@.len() == 0,
            r.wf(),
    {
        VirtualMachine {
            functions: Vec::new(),
            stack: Vec::new(),
            heap: Vec::new(),
            output: Vec::new(),
        }
    }

    /// Index of the first registered function with the given signature.
    pub fn resolve(&self, encoded: &String) -> (r: Option<usize>)
        ensures
            match r {
                Option::None => lookup_fn(funcs_view(self.functions@), encoded@) is None,
                Option::Some(ix) => {
                    &&& ix < self.functions@.len()
                    &&& lookup_fn(funcs_view(self.functions@), encoded@) == Option::Some(
                        self.functions@[ix as int]@,
                    )
                },
            },
    {
        let ghost full = funcs_view(self.functions@);
        proof {
            assert(full.skip(0) =~= full);
        }
        let n = self.functions.len();
        let mut i: usize = 0;
        while i < n
            invariant
                n == self.functions@.len(),
                i <= n,
                full == funcs_view(self.functions@),
                lookup_fn(full, encoded@) == lookup_fn(full.skip(i as int), encoded@),
            decreases n - i,
        {
            if self.functions[i].encodedName == *encoded {
                proof {
                    assert(full.skip(i as int)[0] == full[i as int]);
                }
                return Option::Some(i);
            }
            proof {
                assert(full.skip(i as int)[0] == full[i as int]);
                assert(full.skip(i as int).drop_first() =~= full.skip(i + 1));
            }
            i = i + 1;
        }
        proof {
            assert(full.skip(n as int).len() == 0);
        }
        Option::None
    }

    /// Register a bytecode or native function record.
    pub fn register(&mut self, f: Func)
        requires
            f.wf(),
        ensures
            final(self).functions@ == old(self).functions@.push(f),
            final(self).stack == old(self).stack,
            final(self).heap == old(self).heap,
            final(self).output == old(self).output,
            old(self).wf() ==> final(self).wf(),
    {
        self.functions.push(f);
    }

    /// Register a native callable under its encoded signature.
    pub fn makeNative(
        &mut self,
        name: String,
        params: Vec<VariableMetadata>,
        id: NativeId,
        returnType: Option<DataType>,
    )
        ensures
            final(self).functions@.len() == old(self).functions@.len() + 1,
            final(self).functions@.subrange(0, old(self).functions@.len() as int) == old(
                self,
            ).functions@,
            ({
                let f = final(self).functions@.last()@;
                &&& f.sig == spec_sig(name@, meta_types(params@))
                &&& f.args == meta_types(params@)
                &&& f.locals == meta_types(params@)
                &&& f.ret == match returnType {
                    Option::None => Option::<DataTypeV>::None,
                    Option::Some(t) => Option::Some(t@),
                }
                &&& f.body == FuncBodyV::Native(id)
            }),
            final(self).functions@.last().wf(),
            final(self).stack == old(self).stack,
            final(self).heap == old(self).heap,
            final(self).output == old(self).output,
            old(self).wf() ==> final(self).wf(),
    {
        let argc = params.len();
        let encoded = genFunNameMeta(&name, &params, argc);
        proof {
            assert(params@.subrange(0, argc as int) =~= params@);
        }
        let f = Func {
            encodedName: encoded,
            argAmount: argc,
            varTable: params,
            returnType,
            body: FuncBody::Native { id },
        };
        proof {
            assert(f.varTable@.subrange(0, f.argAmount as int) =~= f.varTable@);
        }
        self.functions.push(f);
        proof {
            assert(final(self).functions@.subrange(0, old(self).functions@.len() as int) =~= old(
                self,
            ).functions@);
        }
    }
}

} // verus!
