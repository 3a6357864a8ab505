//! The data-type tags of the bytecode language and their mathematical model.
use vstd::prelude::*;

verus! {

/// Mathematical model of a data-type tag: object names are character
/// sequences, generic argument lists are sequences of models.
pub ghost enum DataTypeV {
    Int,
    Float,
    Bool,
    Char,
    Object { name: Seq<char>, generics: Seq<DataTypeV> },
    Array(Box<DataTypeV>),
    Any,
}

/// A data-type tag. An object tag carries its metadata: the type's name and
/// its generic arguments. `Any` and the object type named `String` are the
/// two pseudo-types that exist only at type-description level.
#[derive(Debug)]
pub enum DataType {
    Int,
    Float,
    Bool,
    Char,
    Object { name: String, generics: Vec<DataType> },
    Array(Box<DataType>),
    Any,
}

pub open spec fn dt_view(t: DataType) -> DataTypeV
    decreases t,
{
    match t {
        DataType::Int => DataTypeV::Int,
        DataType::Float => DataTypeV::Float,
        DataType::Bool => DataTypeV::Bool,
        DataType::Char => DataTypeV::Char,
        DataType::Object { name, generics } => DataTypeV::Object {
            name: name@,
            generics: dt_view_seq(generics@),
        },
        DataType::Array(e) => DataTypeV::Array(Box::new(dt_view(*e))),
        DataType::Any => DataTypeV::Any,
    }
}

pub open spec fn dt_view_seq(s: Seq<DataType>) -> Seq<DataTypeV>
    decreases s,
{
    if s.len() == 0 {
        Seq::empty()
    } else {
        seq![dt_view(s[0])] + dt_view_seq(s.subrange(1, s.len() as int))
    }
}

/// The model of a tag sequence is the element-wise model.
pub proof fn lemma_dt_view_seq(s: Seq<DataType>)
    ensures
        dt_view_seq(s).len() == s.len(),
        forall|i: int| 0 <= i < s.len() ==> dt_view_seq(s)[i] == dt_view(s[i]),
    decreases s.len(),
{
    if s.len() > 0 {
        lemma_dt_view_seq(s.subrange(1, s.len() as int));
        assert forall|i: int| 0 <= i < s.len() implies dt_view_seq(s)[i] == dt_view(s[i]) by {
            if i > 0 {
                assert(s.subrange(1, s.len() as int)[i - 1] == s[i]);
            }
        }
    }
}

/// Pushing a tag extends the model by the tag's model.
pub proof fn lemma_dt_view_seq_push(s: Seq<DataType>, x: DataType)
    ensures
        dt_view_seq(s.push(x)) == dt_view_seq(s).push(dt_view(x)),
{
    lemma_dt_view_seq(s);
    lemma_dt_view_seq(s.push(x));
    assert(dt_view_seq(s.push(x)) =~= dt_view_seq(s).push(dt_view(x)));
}

/// Dropping the last tag drops the last model.
pub proof fn lemma_dt_view_seq_drop_last(s: Seq<DataType>)
    requires
        s.len() > 0,
    ensures
        dt_view_seq(s).len() == s.len(),
        dt_view_seq(s.drop_last()) == dt_view_seq(s).drop_last(),
        dt_view_seq(s).last() == dt_view(s.last()),
{
    lemma_dt_view_seq(s);
    lemma_dt_view_seq(s.drop_last());
    assert(dt_view_seq(s.drop_last()) =~= dt_view_seq(s).drop_last());
}

impl View for DataType {
    type V = DataTypeV;

    open spec fn view(&self) -> DataTypeV {
        dt_view(*self)
    }
}

impl DataType {
    /// The sugared `Str` type: the object type named `String`.
    pub fn strType() -> (r: DataType)
        ensures
            r@ == (DataTypeV::Object { name: "String"@, generics: Seq::empty() }),
    {
        let gens: Vec<DataType> = Vec::new();
        let r = DataType::Object { name: "String".to_owned(), generics: gens };
        proof {
            assert(dt_view_seq(Seq::<DataType>::empty()) == Seq::<DataTypeV>::empty());
            assert(r@ == (DataTypeV::Object {
                name: "String"@,
                generics: dt_view_seq(Seq::<DataType>::empty()),
            }));
        }
        r
    }

    /// Structural equality of two tags, decided on the models.
    pub fn same(&self, other: &DataType) -> (r: bool)
        ensures
            r == (self@ == other@),
        decreases self,
    {
        match (self, other) {
            (DataType::Int, DataType::Int) => true,
            (DataType::Float, DataType::Float) => true,
            (DataType::Bool, DataType::Bool) => true,
            (DataType::Char, DataType::Char) => true,
            (DataType::Any, DataType::Any) => true,
            (DataType::Array(a), DataType::Array(b)) => {
                let r = a.same(b);
                proof {
                    assert(self@ == DataTypeV::Array(Box::new(dt_view(**a))));
                    assert(other@ == DataTypeV::Array(Box::new(dt_view(**b))));
                }
                r
            }
            (
                DataType::Object { name: an, generics: ag },
                DataType::Object { name: bn, generics: bg },
            ) => {
                proof {
                    lemma_dt_view_seq(ag@);
                    lemma_dt_view_seq(bg@);
                }
                if !(*an == *bn) {
                    false
                } else if ag.len() != bg.len() {
                    false
                } else {
                    proof {
                        assert(self->Object_name == *an);
                        assert(other->Object_name == *bn);
                    }
                    let n = ag.len();
                    let mut i: usize = 0;
                    let mut ok = true;
                    while i < n
                        invariant
                            n == ag@.len(),
                            n == bg@.len(),
                            i <= n,
                            *self is Object,
                            self->Object_generics@ == ag@,
                            *other is Object,
                            other->Object_generics@ == bg@,
                            self->Object_name@ == other->Object_name@,
                            ok == (forall|j: int|
                                0 <= j < i ==> dt_view(ag@[j]) == dt_view(bg@[j])),
                        decreases n - i,
                    {
                        if ok {
                            proof {
                                let s = *self;
                                assert(decreases_to!(s => s->Object_generics));
                                assert(decreases_to!(s->Object_generics => s->Object_generics@));
                                assert(decreases_to!(
                                    s->Object_generics@ => s->Object_generics@[i as int]
                                ));
                            }
                            let e = ag[i].same(&bg[i]);
                            ok = e && ok;
                        } else {
                            proof {
                                assert(!(forall|j: int|
                                    0 <= j < i + 1 ==> dt_view(ag@[j]) == dt_view(bg@[j])));
                            }
                        }
                        i = i + 1;
                    }
                    proof {
                        lemma_dt_view_seq(ag@);
                        lemma_dt_view_seq(bg@);
                        if ok {
                            assert(dt_view_seq(ag@) =~= dt_view_seq(bg@));
                            assert(self@ == other@);
                        } else {
                            let j = choose|j: int|
                                0 <= j < n && dt_view(ag@[j]) != dt_view(bg@[j]);
                            assert(dt_view_seq(ag@)[j] != dt_view_seq(bg@)[j]);
                            assert(self@ != other@);
                        }
                    }
                    ok
                }
            }
            _ => {
                proof {
                    assert(self@ != other@);
                }
                false
            }
        }
    }

    /// A deep copy whose model is the same as the original's.
    pub fn duplicate(&self) -> (r: DataType)
        ensures
            r@ == self@,
        decreases self,
    {
        match self {
            DataType::Int => DataType::Int,
            DataType::Float => DataType::Float,
            DataType::Bool => DataType::Bool,
            DataType::Char => DataType::Char,
            DataType::Any => DataType::Any,
            DataType::Array(e) => DataType::Array(Box::new(e.duplicate())),
            DataType::Object { name, generics } => {
                let mut gens: Vec<DataType> = Vec::new();
                let n = generics.len();
                let mut i: usize = 0;
                while i < n
                    invariant
                        n == generics@.len(),
                        i <= n,
                        *self is Object,
                        self->Object_generics@ == generics@,
                        gens@.len() == i,
                        forall|j: int| 0 <= j < i ==> gens@[j]@ == dt_view(generics@[j]),
                    decreases n - i,
                {
                    proof {
                        let s = *self;
                        assert(decreases_to!(s => s->Object_generics));
                        assert(decreases_to!(s->Object_generics => s->Object_generics@));
                        assert(decreases_to!(
                            s->Object_generics@ => s->Object_generics@[i as int]
                        ));
                    }
                    gens.push(generics[i].duplicate());
                    i = i + 1;
                }
                let r = DataType::Object { name: name.clone(), generics: gens };
                proof {
                    lemma_dt_view_seq(generics@);
                    lemma_dt_view_seq(gens@);
                    assert(dt_view_seq(gens@) =~= dt_view_seq(generics@));
                    assert(r@ == self@);
                }
                r
            }
        }
    }
}

} // verus!
