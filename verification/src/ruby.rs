use vstd::prelude::*;
use crate::field_type::{BamlMediaType, FieldType, SpecFieldType, TypeValue, sft, sft_seq,
    lemma_sft_seq};

verus! {

broadcast use vstd::std_specs::vec::group_vec_axioms;

/// The Sorbet rendering of a primitive type.
pub open spec fn spec_tv_ruby(tv: TypeValue) -> Seq<char> {
    match tv {
        TypeValue::Bool => "T::Boolean"@,
        TypeValue::Float => "Float"@,
        TypeValue::Int => "Integer"@,
        TypeValue::String => "String"@,
        TypeValue::Null => "NilClass"@,
        TypeValue::Media(BamlMediaType::Image) => "Baml::Image"@,
        TypeValue::Media(BamlMediaType::Audio) => "Baml::Audio"@,
    }
}

/// The Sorbet rendering of a type.
pub open spec fn spec_to_ruby(t: SpecFieldType) -> Seq<char>
    decreases t,
{
    match t {
        SpecFieldType::Class(n) => "Baml::Types::"@ + n,
        SpecFieldType::Enum(n) => "T.any(Baml::Types::"@ + n + ", String)"@,
        SpecFieldType::List(b) => "T::Array["@ + spec_to_ruby(*b) + "]"@,
        SpecFieldType::Mapping(k, v) => "T::Hash["@ + spec_to_ruby(*k) + ", "@ + spec_to_ruby(*v)
            + "]"@,
        SpecFieldType::Primitive(tv) => spec_tv_ruby(tv),
        SpecFieldType::Union(cs) => "T.any("@ + spec_to_ruby_join(cs) + ")"@,
        SpecFieldType::Tuple(cs) => "["@ + spec_to_ruby_join(cs) + "]"@,
        SpecFieldType::Optional(b) => "T.nilable("@ + spec_to_ruby(*b) + ")"@,
    }
}

/// The Sorbet renderings of the given types, separated by commas.
pub open spec fn spec_to_ruby_join(cs: Seq<SpecFieldType>) -> Seq<char>
    decreases cs,
{
    if cs.len() == 0 {
        Seq::empty()
    } else if cs.len() == 1 {
        spec_to_ruby(cs[0])
    } else {
        spec_to_ruby(cs[0]) + ", "@ + spec_to_ruby_join(cs.drop_first())
    }
}

/// Appending one element to a joined sequence appends a separator and
/// its rendering.
proof fn lemma_to_ruby_join_push(cs: Seq<SpecFieldType>, x: SpecFieldType)
    ensures
        cs.len() == 0 ==> spec_to_ruby_join(cs.push(x)) == spec_to_ruby(x),
        cs.len() > 0 ==> spec_to_ruby_join(cs.push(x)) =~= spec_to_ruby_join(cs) + ", "@
            + spec_to_ruby(x),
    decreases cs.len(),
{
    if cs.len() == 0 {
        assert(spec_to_ruby_join(cs.push(x)) == spec_to_ruby(cs.push(x)[0]));
        assert(cs.push(x)[0] == x);
    } else if cs.len() == 1 {
        assert(cs.push(x).drop_first() =~= seq![x]);
        assert(spec_to_ruby_join(cs.push(x)) == spec_to_ruby(cs[0]) + ", "@
            + spec_to_ruby_join(seq![x]));
    } else {
        lemma_to_ruby_join_push(cs.drop_first(), x);
        assert(cs.push(x).drop_first() =~= cs.drop_first().push(x));
        assert(cs.push(x)[0] == cs[0]);
    }
}

/// Joins the Sorbet renderings of the members of `ts` with commas.
fn to_ruby_join(ts: &Vec<FieldType>) -> (r: String)
    ensures
        r@ == spec_to_ruby_join(sft_seq(ts@)),
    decreases *ts,
{
    proof {
        lemma_sft_seq(ts@);
    }
    let ghost m = sft_seq(ts@);
    let mut r = String::new();
    let mut i: usize = 0;
    while i < ts.len()
        invariant
            i <= ts@.len(),
            m == sft_seq(ts@),
            m.len() == ts@.len(),
            forall|j: int| 0 <= j < ts@.len() ==> m[j] == sft(ts@[j]),
            r@ == spec_to_ruby_join(m.take(i as int)),
        decreases ts@.len() - i,
    {
        if i > 0 {
            r.append(", ");
        }
        proof {
            assert(decreases_to!(*ts => ts@[i as int]));
        }
        let piece = ts[i].to_ruby();
        r.append(piece.as_str());
        proof {
            lemma_to_ruby_join_push(m.take(i as int), m[i as int]);
            assert(m.take(i + 1 as int) =~= m.take(i as int).push(m[i as int]));
        }
        i += 1;
    }
    proof {
        assert(m.take(ts@.len() as int) =~= m);
    }
    r
}

impl FieldType {
    /// The Sorbet type expression for this type.
    pub fn to_ruby(&self) -> (r: String)
        ensures
            r@ == spec_to_ruby(sft(*self)),
        decreases *self,
    {
        match self {
            FieldType::Class(n) => {
                let mut r = "Baml::Types::".to_owned();
                r.append(n.as_str());
                r
            }
            FieldType::Enum(n) => {
                let mut r = "T.any(Baml::Types::".to_owned();
                r.append(n.as_str());
                r.append(", String)");
                proof {
                    assert(r@ =~= spec_to_ruby(sft(*self)));
                }
                r
            }
            FieldType::List(b) => {
                let mut r = "T::Array[".to_owned();
                let inner = b.to_ruby();
                r.append(inner.as_str());
                r.append("]");
                proof {
                    assert(r@ =~= spec_to_ruby(sft(*self)));
                }
                r
            }
            FieldType::Mapping(k, v) => {
                let mut r = "T::Hash[".to_owned();
                let ks = k.to_ruby();
                r.append(ks.as_str());
                r.append(", ");
                let vs = v.to_ruby();
                r.append(vs.as_str());
                r.append("]");
                proof {
                    assert(r@ =~= spec_to_ruby(sft(*self)));
                }
                r
            }
            FieldType::Primitive(tv) => {
                match tv {
                    TypeValue::Bool => "T::Boolean".to_owned(),
                    TypeValue::Float => "Float".to_owned(),
                    TypeValue::Int => "Integer".to_owned(),
                    TypeValue::String => "String".to_owned(),
                    TypeValue::Null => "NilClass".to_owned(),
                    TypeValue::Media(BamlMediaType::Image) => "Baml::Image".to_owned(),
                    TypeValue::Media(BamlMediaType::Audio) => "Baml::Audio".to_owned(),
                }
            }
            FieldType::Union(cs) => {
                proof {
                    assert(decreases_to!(*self => (*self)->Union_0));
                }
                let mut r = "T.any(".to_owned();
                let mid = to_ruby_join(cs);
                r.append(mid.as_str());
                r.append(")");
                proof {
                    assert(r@ =~= spec_to_ruby(sft(*self)));
                }
                r
            }
            FieldType::Tuple(cs) => {
                proof {
                    assert(decreases_to!(*self => (*self)->Tuple_0));
                }
                let mut r = "[".to_owned();
                let mid = to_ruby_join(cs);
                r.append(mid.as_str());
                r.append("]");
                proof {
                    assert(r@ =~= spec_to_ruby(sft(*self)));
                }
                r
            }
            FieldType::Optional(b) => {
                let mut r = "T.nilable(".to_owned();
                let inner = b.to_ruby();
                r.append(inner.as_str());
                r.append(")");
                proof {
                    assert(r@ =~= spec_to_ruby(sft(*self)));
                }
                r
            }
        }
    }
}

} // verus!
