//! The standard-library natives a fresh machine is booted with.
use vstd::prelude::*;
use crate::types::{DataType, DataTypeV};
use crate::vm::{VirtualMachine, VariableMetadata, NativeId, FuncV, FuncBodyV, spec_sig,
    meta_types};

verus! {

/// The object-type model named `String`.
pub open spec fn str_type_v() -> DataTypeV {
    DataTypeV::Object { name: "String"@, generics: Seq::empty() }
}

/// One native's record: signature over its parameter tags, those tags as
/// both arguments and locals, its return tag, and its identity.
pub open spec fn native_func_v(
    name: Seq<char>,
    params: Seq<DataTypeV>,
    ret: Option<DataTypeV>,
    id: NativeId,
) -> FuncV {
    FuncV {
        sig: spec_sig(name, params),
        args: params,
        locals: params,
        ret,
        body: FuncBodyV::Native(id),
    }
}

/// The registry a booted machine starts with: the `print` family resolved
/// by signature, `assert`, the string natives, and the array natives.
pub open spec fn boot_funcs() -> Seq<FuncV> {
    seq![
        native_func_v("print"@, seq![DataTypeV::Int], Option::None, NativeId::PrintInt),
        native_func_v("print"@, seq![DataTypeV::Float], Option::None, NativeId::PrintFloat),
        native_func_v("print"@, seq![str_type_v()], Option::None, NativeId::PrintString),
        native_func_v(
            "assert"@,
            seq![DataTypeV::Int, DataTypeV::Int],
            Option::None,
            NativeId::AssertIntInt,
        ),
        native_func_v("makeString"@, Seq::empty(), Option::Some(str_type_v()), NativeId::MakeString),
        native_func_v(
            "appendChar"@,
            seq![str_type_v(), DataTypeV::Char],
            Option::None,
            NativeId::AppendChar,
        ),
        native_func_v(
            "strLen"@,
            seq![str_type_v()],
            Option::Some(DataTypeV::Int),
            NativeId::StrLen,
        ),
        native_func_v(
            "getChar"@,
            seq![str_type_v(), DataTypeV::Int],
            Option::Some(DataTypeV::Char),
            NativeId::GetChar,
        ),
        native_func_v(
            "endsWith"@,
            seq![str_type_v(), str_type_v()],
            Option::Some(DataTypeV::Bool),
            NativeId::EndsWith,
        ),
        native_func_v(
            "arrayLen"@,
            seq![DataTypeV::Array(Box::new(DataTypeV::Any))],
            Option::Some(DataTypeV::Int),
            NativeId::ArrayLen,
        ),
        native_func_v(
            "makeArray"@,
            seq![DataTypeV::Int],
            Option::Some(DataTypeV::Array(Box::new(DataTypeV::Any))),
            NativeId::MakeArray,
        ),
    ]
}

fn meta(name: &str, typ: DataType) -> (r: VariableMetadata)
    ensures
        r.typ@ == typ@,
{
    VariableMetadata { name: name.to_owned(), typ }
}

/// A machine booted with the standard-library natives: empty stack, heap
/// and output, and exactly the records of `boot_funcs` in its registry.
pub fn bootStrapVM() -> (r: VirtualMachine)
    ensures
        r.wf(),
        r.stack@.len() == 0,
        r.heap@.len() == 0,
        r.output@.len() == 0,
        crate::vm::funcs_view(r.functions@) == boot_funcs(),
{
    let mut vm = VirtualMachine::new();

    let mut ps: Vec<VariableMetadata> = Vec::new();
    ps.push(meta("value", DataType::Int));
    proof {
        assert(meta_types(ps@) =~= seq![DataTypeV::Int]);
    }
    vm.makeNative("print".to_owned(), ps, NativeId::PrintInt, Option::None);
    proof {
        assert(vm.functions@[0]@ == boot_funcs()[0]);
    }

    let mut ps: Vec<VariableMetadata> = Vec::new();
    ps.push(meta("value", DataType::Float));
    proof {
        assert(meta_types(ps@) =~= seq![DataTypeV::Float]);
    }
    vm.makeNative("print".to_owned(), ps, NativeId::PrintFloat, Option::None);
    proof {
        assert(vm.functions@[1]@ == boot_funcs()[1]);
    }

    let mut ps: Vec<VariableMetadata> = Vec::new();
    ps.push(meta("value", DataType::strType()));
    proof {
        assert(meta_types(ps@) =~= seq![str_type_v()]);
    }
    vm.makeNative("print".to_owned(), ps, NativeId::PrintString, Option::None);
    proof {
        assert(vm.functions@[2]@ == boot_funcs()[2]);
    }

    let mut ps: Vec<VariableMetadata> = Vec::new();
    ps.push(meta("left", DataType::Int));
    ps.push(meta("right", DataType::Int));
    proof {
        assert(meta_types(ps@) =~= seq![DataTypeV::Int, DataTypeV::Int]);
    }
    vm.makeNative("assert".to_owned(), ps, NativeId::AssertIntInt, Option::None);
    proof {
        assert(vm.functions@[3]@ == boot_funcs()[3]);
    }

    let ps: Vec<VariableMetadata> = Vec::new();
    proof {
        assert(meta_types(ps@) =~= Seq::<DataTypeV>::empty());
    }
    vm.makeNative(
        "makeString".to_owned(),
        ps,
        NativeId::MakeString,
        Option::Some(DataType::strType()),
    );
    proof {
        assert(vm.functions@[4]@ == boot_funcs()[4]);
    }

    let mut ps: Vec<VariableMetadata> = Vec::new();
    ps.push(meta("str", DataType::strType()));
    ps.push(meta("chr", DataType::Char));
    proof {
        assert(meta_types(ps@) =~= seq![str_type_v(), DataTypeV::Char]);
    }
    vm.makeNative("appendChar".to_owned(), ps, NativeId::AppendChar, Option::None);
    proof {
        assert(vm.functions@[5]@ == boot_funcs()[5]);
    }

    let mut ps: Vec<VariableMetadata> = Vec::new();
    ps.push(meta("str", DataType::strType()));
    proof {
        assert(meta_types(ps@) =~= seq![str_type_v()]);
    }
    vm.makeNative("strLen".to_owned(), ps, NativeId::StrLen, Option::Some(DataType::Int));
    proof {
        assert(vm.functions@[6]@ == boot_funcs()[6]);
    }

    let mut ps: Vec<VariableMetadata> = Vec::new();
    ps.push(meta("str", DataType::strType()));
    ps.push(meta("index", DataType::Int));
    proof {
        assert(meta_types(ps@) =~= seq![str_type_v(), DataTypeV::Int]);
    }
    vm.makeNative("getChar".to_owned(), ps, NativeId::GetChar, Option::Some(DataType::Char));
    proof {
        assert(vm.functions@[7]@ == boot_funcs()[7]);
    }

    let mut ps: Vec<VariableMetadata> = Vec::new();
    ps.push(meta("str", DataType::strType()));
    ps.push(meta("suffix", DataType::strType()));
    proof {
        assert(meta_types(ps@) =~= seq![str_type_v(), str_type_v()]);
    }
    vm.makeNative("endsWith".to_owned(), ps, NativeId::EndsWith, Option::Some(DataType::Bool));
    proof {
        assert(vm.functions@[8]@ == boot_funcs()[8]);
    }

    let mut ps: Vec<VariableMetadata> = Vec::new();
    ps.push(meta("arr", DataType::Array(Box::new(DataType::Any))));
    proof {
        assert(crate::types::dt_view(DataType::Any) == DataTypeV::Any);
        assert(meta_types(ps@) =~= seq![DataTypeV::Array(Box::new(DataTypeV::Any))]);
    }
    vm.makeNative("arrayLen".to_owned(), ps, NativeId::ArrayLen, Option::Some(DataType::Int));
    proof {
        assert(vm.functions@[9]@ == boot_funcs()[9]);
    }

    let mut ps: Vec<VariableMetadata> = Vec::new();
    ps.push(meta("length", DataType::Int));
    proof {
        assert(meta_types(ps@) =~= seq![DataTypeV::Int]);
    }
    vm.makeNative(
        "makeArray".to_owned(),
        ps,
        NativeId::MakeArray,
        Option::Some(DataType::Array(Box::new(DataType::Any))),
    );
    proof {
        assert(crate::types::dt_view(DataType::Any) == DataTypeV::Any);
        assert(vm.functions@[10]@ == boot_funcs()[10]);
        assert(crate::vm::funcs_view(vm.functions@) =~= boot_funcs());
    }

    vm
}

} // verus!
