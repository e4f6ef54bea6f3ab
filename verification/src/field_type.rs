use vstd::prelude::*;
use crate::text::str_eq;

verus! {

broadcast use vstd::std_specs::vec::group_vec_axioms;

/// The two kinds of media a prompt can carry.
#[derive(Debug, Clone, Copy, PartialEq, Eq, Structural)]
pub enum BamlMediaType {
    Image,
    Audio,
}

/// The primitive types of the modeling language.
#[derive(Debug, Clone, Copy, PartialEq, Eq, Structural)]
pub enum TypeValue {
    String,
    Int,
    Float,
    Bool,
    Null,
    Media(BamlMediaType),
}

/// The structural type of a class field or a function argument.
#[derive(Debug)]
pub enum FieldType {
    Primitive(TypeValue),
    Enum(String),
    Class(String),
    List(Box<FieldType>),
    Mapping(Box<FieldType>, Box<FieldType>),
    Union(Vec<FieldType>),
    Tuple(Vec<FieldType>),
    Optional(Box<FieldType>),
}

/// The mathematical model of a `FieldType`: names become character
/// sequences, vectors become sequences.
pub enum SpecFieldType {
    Primitive(TypeValue),
    Enum(Seq<char>),
    Class(Seq<char>),
    List(Box<SpecFieldType>),
    Mapping(Box<SpecFieldType>, Box<SpecFieldType>),
    Union(Seq<SpecFieldType>),
    Tuple(Seq<SpecFieldType>),
    Optional(Box<SpecFieldType>),
}

/// The model of a `FieldType` value.
pub open spec fn sft(t: FieldType) -> SpecFieldType
    decreases t,
{
    match t {
        FieldType::Primitive(tv) => SpecFieldType::Primitive(tv),
        FieldType::Enum(n) => SpecFieldType::Enum(n@),
        FieldType::Class(n) => SpecFieldType::Class(n@),
        FieldType::List(b) => SpecFieldType::List(Box::new(sft(*b))),
        FieldType::Mapping(k, v) => SpecFieldType::Mapping(Box::new(sft(*k)), Box::new(sft(*v))),
        FieldType::Union(v) => SpecFieldType::Union(sft_seq(v@)),
        FieldType::Tuple(v) => SpecFieldType::Tuple(sft_seq(v@)),
        FieldType::Optional(b) => SpecFieldType::Optional(Box::new(sft(*b))),
    }
}

/// The models of a sequence of `FieldType` values, elementwise.
pub open spec fn sft_seq(v: Seq<FieldType>) -> Seq<SpecFieldType>
    decreases v,
{
    if v.len() == 0 {
        Seq::empty()
    } else {
        seq![sft(v[0])] + sft_seq(v.drop_first())
    }
}

/// `sft_seq` maps `sft` over the sequence, elementwise.
pub proof fn lemma_sft_seq(v: Seq<FieldType>)
    ensures
        sft_seq(v).len() == v.len(),
        forall|j: int| 0 <= j < v.len() ==> sft_seq(v)[j] == sft(v[j]),
    decreases v.len(),
{
    if v.len() > 0 {
        lemma_sft_seq(v.drop_first());
    }
}

/// Which `TypeValue` a primitive-type name denotes, if any.
pub open spec fn spec_type_value_from_str(s: Seq<char>) -> Option<TypeValue> {
    if s == "string"@ {
        Some(TypeValue::String)
    } else if s == "int"@ {
        Some(TypeValue::Int)
    } else if s == "float"@ {
        Some(TypeValue::Float)
    } else if s == "bool"@ {
        Some(TypeValue::Bool)
    } else if s == "null"@ {
        Some(TypeValue::Null)
    } else if s == "image"@ {
        Some(TypeValue::Media(BamlMediaType::Image))
    } else if s == "audio"@ {
        Some(TypeValue::Media(BamlMediaType::Audio))
    } else {
        None
    }
}

impl TypeValue {
    /// Parses a primitive-type name; `None` on an unrecognized name
    /// (the caller decides the severity).
    pub fn from_str(s: &str) -> (r: Option<TypeValue>)
        ensures
            r == spec_type_value_from_str(s@),
    {
        if str_eq(s, "string") {
            Some(TypeValue::String)
        } else if str_eq(s, "int") {
            Some(TypeValue::Int)
        } else if str_eq(s, "float") {
            Some(TypeValue::Float)
        } else if str_eq(s, "bool") {
            Some(TypeValue::Bool)
        } else if str_eq(s, "null") {
            Some(TypeValue::Null)
        } else if str_eq(s, "image") {
            Some(TypeValue::Media(BamlMediaType::Image))
        } else if str_eq(s, "audio") {
            Some(TypeValue::Media(BamlMediaType::Audio))
        } else {
            None
        }
    }
}

/// A type is primitive when it is a bare primitive, or exactly one layer
/// of list or optional around a bare primitive; deeper nesting is not
/// primitive, nor is any map, union, tuple, class or enum.
pub open spec fn spec_is_primitive(t: SpecFieldType) -> bool {
    match t {
        SpecFieldType::Primitive(_) => true,
        SpecFieldType::List(b) => *b is Primitive,
        SpecFieldType::Optional(b) => *b is Primitive,
        _ => false,
    }
}

/// A type is optional when it is an optional, the null primitive, or a
/// union any of whose members is optional.
pub open spec fn spec_is_optional(t: SpecFieldType) -> bool
    decreases t,
{
    match t {
        SpecFieldType::Optional(_) => true,
        SpecFieldType::Primitive(tv) => tv is Null,
        SpecFieldType::Union(ts) => exists|i: int|
            0 <= i < ts.len() && spec_is_optional(#[trigger] ts[i]),
        _ => false,
    }
}

/// A type is null when it is the null primitive, or an optional whose
/// inner type is null; union members are not inspected.
pub open spec fn spec_is_null(t: SpecFieldType) -> bool
    decreases t,
{
    match t {
        SpecFieldType::Primitive(tv) => tv is Null,
        SpecFieldType::Optional(b) => spec_is_null(*b),
        _ => false,
    }
}

/// The model of a bare primitive is a bare primitive.
pub proof fn lemma_sft_primitive(t: FieldType)
    ensures
        (sft(t) is Primitive) == (t is Primitive),
{
}

/// Whether any member of the vector is an optional type.
fn vec_any_optional(ts: &Vec<FieldType>) -> (r: bool)
    ensures
        r == exists|i: int| 0 <= i < ts@.len() && spec_is_optional(#[trigger] sft(ts@[i])),
    decreases *ts,
{
    let mut i: usize = 0;
    while i < ts.len()
        invariant
            i <= ts@.len(),
            forall|j: int| 0 <= j < i ==> !spec_is_optional(#[trigger] sft(ts@[j])),
        decreases ts@.len() - i,
    {
        proof {
            assert(decreases_to!(*ts => ts@[i as int]));
        }
        if ts[i].is_optional() {
            return true;
        }
        i += 1;
    }
    false
}

impl FieldType {
    pub fn is_primitive(&self) -> (r: bool)
        ensures
            r == spec_is_primitive(sft(*self)),
    {
        match self {
            FieldType::Primitive(_) => true,
            FieldType::List(b) => {
                proof {
                    lemma_sft_primitive(**b);
                }
                matches!(**b, FieldType::Primitive(_))
            }
            FieldType::Optional(b) => {
                proof {
                    lemma_sft_primitive(**b);
                }
                matches!(**b, FieldType::Primitive(_))
            }
            _ => false,
        }
    }

    pub fn is_optional(&self) -> (r: bool)
        ensures
            r == spec_is_optional(sft(*self)),
        decreases *self,
    {
        match self {
            FieldType::Optional(_) => true,
            FieldType::Primitive(tv) => matches!(tv, TypeValue::Null),
            FieldType::Union(ts) => {
                proof {
                    lemma_sft_seq(ts@);
                    assert(decreases_to!(*self => (*self)->Union_0));
                }
                let r = vec_any_optional(ts);
                proof {
                    if r {
                        let k = choose|i: int|
                            0 <= i < ts@.len() && spec_is_optional(#[trigger] sft(ts@[i]));
                        assert(spec_is_optional(sft_seq(ts@)[k]));
                    } else {
                        assert forall|i: int|
                            0 <= i < sft_seq(ts@).len() implies !spec_is_optional(
                            #[trigger] sft_seq(ts@)[i],
                        ) by {
                            assert(sft_seq(ts@)[i] == sft(ts@[i]));
                        }
                    }
                }
                r
            }
            _ => false,
        }
    }

    pub fn is_null(&self) -> (r: bool)
        ensures
            r == spec_is_null(sft(*self)),
        decreases *self,
    {
        match self {
            FieldType::Primitive(tv) => matches!(tv, TypeValue::Null),
            FieldType::Optional(b) => b.is_null(),
            _ => false,
        }
    }
}

/// Every null type is optional.
pub proof fn lemma_is_null_implies_is_optional(t: SpecFieldType)
    ensures
        spec_is_null(t) ==> spec_is_optional(t),
{
}

/// The canonical rendering of a primitive type name.
pub open spec fn spec_tv_display(tv: TypeValue) -> Seq<char> {
    match tv {
        TypeValue::String => "string"@,
        TypeValue::Int => "int"@,
        TypeValue::Float => "float"@,
        TypeValue::Bool => "bool"@,
        TypeValue::Null => "null"@,
        TypeValue::Media(BamlMediaType::Image) => "image"@,
        TypeValue::Media(BamlMediaType::Audio) => "audio"@,
    }
}

impl TypeValue {
    /// The canonical rendering of this primitive type.
    pub fn display(&self) -> (r: String)
        ensures
            r@ == spec_tv_display(*self),
    {
        match self {
            TypeValue::String => "string".to_owned(),
            TypeValue::Int => "int".to_owned(),
            TypeValue::Float => "float".to_owned(),
            TypeValue::Bool => "bool".to_owned(),
            TypeValue::Null => "null".to_owned(),
            TypeValue::Media(BamlMediaType::Image) => "image".to_owned(),
            TypeValue::Media(BamlMediaType::Audio) => "audio".to_owned(),
        }
    }
}

/// The canonical rendering of a type: bare names, `T[]` for lists,
/// `(a | b)` for unions, `(a, b)` for tuples, `map<K, V>` and `T?`.
pub open spec fn spec_display(t: SpecFieldType) -> Seq<char>
    decreases t,
{
    match t {
        SpecFieldType::Enum(n) => n,
        SpecFieldType::Class(n) => n,
        SpecFieldType::Primitive(tv) => spec_tv_display(tv),
        SpecFieldType::Union(cs) => "("@ + spec_display_join(cs, " | "@) + ")"@,
        SpecFieldType::Tuple(cs) => "("@ + spec_display_join(cs, ", "@) + ")"@,
        SpecFieldType::Mapping(k, v) => "map<"@ + spec_display(*k) + ", "@ + spec_display(*v)
            + ">"@,
        SpecFieldType::List(b) => spec_display(*b) + "[]"@,
        SpecFieldType::Optional(b) => spec_display(*b) + "?"@,
    }
}

/// The renderings of the given types, separated by `sep`.
pub open spec fn spec_display_join(cs: Seq<SpecFieldType>, sep: Seq<char>) -> Seq<char>
    decreases cs,
{
    if cs.len() == 0 {
        Seq::empty()
    } else if cs.len() == 1 {
        spec_display(cs[0])
    } else {
        spec_display(cs[0]) + sep + spec_display_join(cs.drop_first(), sep)
    }
}

/// Appending one element to a joined sequence appends a separator and
/// its rendering.
proof fn lemma_display_join_push(cs: Seq<SpecFieldType>, sep: Seq<char>, x: SpecFieldType)
    ensures
        cs.len() == 0 ==> spec_display_join(cs.push(x), sep) == spec_display(x),
        cs.len() > 0 ==> spec_display_join(cs.push(x), sep) =~= spec_display_join(cs, sep) + sep
            + spec_display(x),
    decreases cs.len(),
{
    if cs.len() == 0 {
        assert(spec_display_join(cs.push(x), sep) == spec_display(cs.push(x)[0]));
        assert(cs.push(x)[0] == x);
    } else if cs.len() == 1 {
        assert(cs.push(x).drop_first() =~= seq![x]);
        assert(spec_display_join(cs.push(x), sep) == spec_display(cs[0]) + sep
            + spec_display_join(seq![x], sep));
    } else {
        lemma_display_join_push(cs.drop_first(), sep, x);
        assert(cs.push(x).drop_first() =~= cs.drop_first().push(x));
        assert(cs.push(x)[0] == cs[0]);
    }
}

/// Joins the renderings of the members of `ts` with `sep` between them.
fn display_join(ts: &Vec<FieldType>, sep: &str) -> (r: String)
    ensures
        r@ == spec_display_join(sft_seq(ts@), sep@),
    decreases *ts,
{
    proof {
        lemma_sft_seq(ts@);
    }
    let ghost m = sft_seq(ts@);
    let mut r = String::new();
    let mut i: usize = 0;
    while i < ts.len()
        invariant
            i <= ts@.len(),
            m == sft_seq(ts@),
            m.len() == ts@.len(),
            forall|j: int| 0 <= j < ts@.len() ==> m[j] == sft(ts@[j]),
            r@ == spec_display_join(m.take(i as int), sep@),
        decreases ts@.len() - i,
    {
        if i > 0 {
            r.append(sep);
        }
        proof {
            assert(decreases_to!(*ts => ts@[i as int]));
        }
        let piece = ts[i].display();
        r.append(piece.as_str());
        proof {
            lemma_display_join_push(m.take(i as int), sep@, m[i as int]);
            assert(m.take(i + 1 as int) =~= m.take(i as int).push(m[i as int]));
        }
        i += 1;
    }
    proof {
        assert(m.take(ts@.len() as int) =~= m);
    }
    r
}

impl FieldType {
    /// The canonical rendering of this type.
    pub fn display(&self) -> (r: String)
        ensures
            r@ == spec_display(sft(*self)),
        decreases *self,
    {
        match self {
            FieldType::Enum(n) => n.clone(),
            FieldType::Class(n) => n.clone(),
            FieldType::Primitive(tv) => tv.display(),
            FieldType::Union(cs) => {
                proof {
                    assert(decreases_to!(*self => (*self)->Union_0));
                }
                let mut r = "(".to_owned();
                let mid = display_join(cs, " | ");
                r.append(mid.as_str());
                r.append(")");
                proof {
                    assert(r@ =~= spec_display(sft(*self)));
                }
                r
            }
            FieldType::Tuple(cs) => {
                proof {
                    assert(decreases_to!(*self => (*self)->Tuple_0));
                }
                let mut r = "(".to_owned();
                let mid = display_join(cs, ", ");
                r.append(mid.as_str());
                r.append(")");
                proof {
                    assert(r@ =~= spec_display(sft(*self)));
                }
                r
            }
            FieldType::Mapping(k, v) => {
                let mut r = "map<".to_owned();
                let ks = k.display();
                r.append(ks.as_str());
                r.append(", ");
                let vs = v.display();
                r.append(vs.as_str());
                r.append(">");
                proof {
                    assert(r@ =~= spec_display(sft(*self)));
                }
                r
            }
            FieldType::List(b) => {
                let mut r = b.display();
                r.append("[]");
                r
            }
            FieldType::Optional(b) => {
                let mut r = b.display();
                r.append("?");
                r
            }
        }
    }
}

} // verus!

