use vstd::prelude::*;
use crate::ast::{Database, TypeExpr, class_names, enum_names};
use crate::diagnostics::{Diagnostics, Severity, SpecDiag, sdiags, sspan, spec_not_found_message};
use crate::field_type::{FieldType, SpecFieldType, TypeValue, lemma_sft_seq, sft, sft_seq,
    spec_type_value_from_str};
use crate::text::names_model;

verus! {

broadcast use vstd::std_specs::vec::group_vec_axioms;

/// What a bare type name denotes: a primitive when its name parses as
/// one, else the declared class or enum of that name, else a reference
/// kept as a class name for later resolution failure.
pub open spec fn spec_project_name(
    n: Seq<char>,
    cns: Seq<Seq<char>>,
    ens: Seq<Seq<char>>,
) -> SpecFieldType {
    match spec_type_value_from_str(n) {
        Some(tv) => SpecFieldType::Primitive(tv),
        None => if cns.contains(n) {
            SpecFieldType::Class(n)
        } else if ens.contains(n) {
            SpecFieldType::Enum(n)
        } else {
            SpecFieldType::Class(n)
        },
    }
}

/// The structural type a syntax-level type expression denotes, given the
/// declared class and enum names.
pub open spec fn spec_project(t: TypeExpr, cns: Seq<Seq<char>>, ens: Seq<Seq<char>>) -> SpecFieldType
    decreases t, 0int,
{
    match t {
        TypeExpr::Named(n, _) => spec_project_name(n@, cns, ens),
        TypeExpr::List(b) => SpecFieldType::List(Box::new(spec_project(*b, cns, ens))),
        TypeExpr::Mapping(k, v) => SpecFieldType::Mapping(
            Box::new(spec_project(*k, cns, ens)),
            Box::new(spec_project(*v, cns, ens)),
        ),
        TypeExpr::Union(v) => SpecFieldType::Union(spec_project_seq(v@, 0, cns, ens)),
        TypeExpr::Tuple(v) => SpecFieldType::Tuple(spec_project_seq(v@, 0, cns, ens)),
        TypeExpr::Optional(b) => SpecFieldType::Optional(Box::new(spec_project(*b, cns, ens))),
    }
}

/// The structural types the members of `v` denote, from index `i` on.
pub open spec fn spec_project_seq(
    v: Seq<TypeExpr>,
    i: int,
    cns: Seq<Seq<char>>,
    ens: Seq<Seq<char>>,
) -> Seq<SpecFieldType>
    decreases v, v.len() - i,
{
    if i < 0 || i >= v.len() {
        Seq::empty()
    } else {
        seq![spec_project(v[i], cns, ens)] + spec_project_seq(v, i + 1, cns, ens)
    }
}

/// `spec_project_seq` projects the members elementwise.
pub proof fn lemma_project_seq(v: Seq<TypeExpr>, i: int, cns: Seq<Seq<char>>, ens: Seq<Seq<char>>)
    requires
        0 <= i <= v.len(),
    ensures
        spec_project_seq(v, i, cns, ens).len() == v.len() - i,
        forall|j: int|
            i <= j < v.len() ==> spec_project_seq(v, i, cns, ens)[j - i] == spec_project(
                v[j],
                cns,
                ens,
            ),
    decreases v.len() - i,
{
    if i < v.len() {
        lemma_project_seq(v, i + 1, cns, ens);
    }
}

/// Projects the members of `v`, elementwise.
fn project_vec(v: &Vec<TypeExpr>, db: &Database) -> (r: Vec<FieldType>)
    ensures
        r@.len() == v@.len(),
        forall|j: int|
            0 <= j < v@.len() ==> sft(r@[j]) == spec_project(
                v@[j],
                class_names(*db),
                enum_names(*db),
            ),
    decreases *v,
{
    let mut r: Vec<FieldType> = Vec::new();
    let mut i: usize = 0;
    while i < v.len()
        invariant
            i <= v@.len(),
            r@.len() == i,
            forall|j: int|
                0 <= j < i ==> sft(r@[j]) == spec_project(v@[j], class_names(*db), enum_names(*db)),
        decreases v@.len() - i,
    {
        proof {
            assert(decreases_to!(*v => v@[i as int]));
        }
        r.push(to_field_type(&v[i], db));
        i += 1;
    }
    r
}

/// The structural type of a syntax-level type expression, resolved
/// against the database's declared names.
pub fn to_field_type(t: &TypeExpr, db: &Database) -> (r: FieldType)
    ensures
        sft(r) == spec_project(*t, class_names(*db), enum_names(*db)),
    decreases *t,
{
    match t {
        TypeExpr::Named(n, _) => {
            match TypeValue::from_str(n.as_str()) {
                Some(tv) => FieldType::Primitive(tv),
                None => {
                    if db.has_class(n.as_str()) {
                        FieldType::Class(n.clone())
                    } else if db.has_enum(n.as_str()) {
                        FieldType::Enum(n.clone())
                    } else {
                        FieldType::Class(n.clone())
                    }
                }
            }
        }
        TypeExpr::List(b) => FieldType::List(Box::new(to_field_type(b, db))),
        TypeExpr::Mapping(k, v) => FieldType::Mapping(
            Box::new(to_field_type(k, db)),
            Box::new(to_field_type(v, db)),
        ),
        TypeExpr::Union(v) => {
            proof {
                assert(decreases_to!(*t => (*t)->Union_0));
            }
            let parts = project_vec(v, db);
            proof {
                lemma_sft_seq(parts@);
                lemma_project_seq(v@, 0, class_names(*db), enum_names(*db));
                assert(sft_seq(parts@) =~= spec_project_seq(
                    v@,
                    0,
                    class_names(*db),
                    enum_names(*db),
                ));
            }
            FieldType::Union(parts)
        }
        TypeExpr::Tuple(v) => {
            proof {
                assert(decreases_to!(*t => (*t)->Tuple_0));
            }
            let parts = project_vec(v, db);
            proof {
                lemma_sft_seq(parts@);
                lemma_project_seq(v@, 0, class_names(*db), enum_names(*db));
                assert(sft_seq(parts@) =~= spec_project_seq(
                    v@,
                    0,
                    class_names(*db),
                    enum_names(*db),
                ));
            }
            FieldType::Tuple(parts)
        }
        TypeExpr::Optional(b) => FieldType::Optional(Box::new(to_field_type(b, db))),
    }
}

/// The diagnostics that validating a type expression produces: one
/// not-found error for every bare name, at any nesting depth, that is
/// neither a primitive nor a declared class or enum, in traversal order.
pub open spec fn spec_type_diags(
    t: TypeExpr,
    cns: Seq<Seq<char>>,
    ens: Seq<Seq<char>>,
    cands: Seq<Seq<char>>,
) -> Seq<SpecDiag>
    decreases t, 0int,
{
    match t {
        TypeExpr::Named(n, span) => if spec_type_value_from_str(n@) is None && !cns.contains(n@)
            && !ens.contains(n@) {
            seq![
                SpecDiag {
                    severity: Severity::Error,
                    message: spec_not_found_message("Type"@, n@, cands),
                    span: sspan(span),
                },
            ]
        } else {
            Seq::empty()
        },
        TypeExpr::List(b) => spec_type_diags(*b, cns, ens, cands),
        TypeExpr::Mapping(k, v) => spec_type_diags(*k, cns, ens, cands) + spec_type_diags(
            *v,
            cns,
            ens,
            cands,
        ),
        TypeExpr::Union(v) => spec_type_diags_seq(v@, 0, cns, ens, cands),
        TypeExpr::Tuple(v) => spec_type_diags_seq(v@, 0, cns, ens, cands),
        TypeExpr::Optional(b) => spec_type_diags(*b, cns, ens, cands),
    }
}

/// The concatenated diagnostics of the members of `v`, from index `i` on.
pub open spec fn spec_type_diags_seq(
    v: Seq<TypeExpr>,
    i: int,
    cns: Seq<Seq<char>>,
    ens: Seq<Seq<char>>,
    cands: Seq<Seq<char>>,
) -> Seq<SpecDiag>
    decreases v, v.len() - i,
{
    if i < 0 || i >= v.len() {
        Seq::empty()
    } else {
        spec_type_diags(v[i], cns, ens, cands) + spec_type_diags_seq(v, i + 1, cns, ens, cands)
    }
}

/// Validates every class or enum name referenced inside `t`, at any
/// nesting depth, against the database; every unresolved name gets a
/// not-found error listing the given candidates.
pub fn validate_type(diag: &mut Diagnostics, t: &TypeExpr, db: &Database, cands: &Vec<String>)
    requires
        names_model(cands@) == class_names(*db) + enum_names(*db),
    ensures
        sdiags(final(diag).diags@) == sdiags(old(diag).diags@) + spec_type_diags(
            *t,
            class_names(*db),
            enum_names(*db),
            names_model(cands@),
        ),
    decreases *t,
{
    let ghost cns = class_names(*db);
    let ghost ens = enum_names(*db);
    let ghost cm = names_model(cands@);
    match t {
        TypeExpr::Named(n, span) => {
            let prim = TypeValue::from_str(n.as_str());
            if prim.is_none() && !db.has_class(n.as_str()) && !db.has_enum(n.as_str()) {
                diag.not_found_error("Type", n.as_str(), span.clone(), cands);
                proof {
                    assert(sdiags(diag.diags@) =~= sdiags(old(diag).diags@) + spec_type_diags(
                        *t,
                        cns,
                        ens,
                        cm,
                    ));
                }
            } else {
                proof {
                    assert(sdiags(diag.diags@) =~= sdiags(old(diag).diags@) + spec_type_diags(
                        *t,
                        cns,
                        ens,
                        cm,
                    ));
                }
            }
        }
        TypeExpr::List(b) => {
            validate_type(diag, b, db, cands);
        }
        TypeExpr::Mapping(k, v) => {
            validate_type(diag, k, db, cands);
            validate_type(diag, v, db, cands);
            proof {
                assert(sdiags(diag.diags@) =~= sdiags(old(diag).diags@) + spec_type_diags(
                    *t,
                    cns,
                    ens,
                    cm,
                ));
            }
        }
        TypeExpr::Union(v) => {
            proof {
                assert(decreases_to!(*t => (*t)->Union_0));
            }
            validate_type_vec(diag, v, db, cands);
        }
        TypeExpr::Tuple(v) => {
            proof {
                assert(decreases_to!(*t => (*t)->Tuple_0));
            }
            validate_type_vec(diag, v, db, cands);
        }
        TypeExpr::Optional(b) => {
            validate_type(diag, b, db, cands);
        }
    }
}

/// Validates the members of `v` in order, as `validate_type` does.
fn validate_type_vec(diag: &mut Diagnostics, v: &Vec<TypeExpr>, db: &Database, cands: &Vec<String>)
    requires
        names_model(cands@) == class_names(*db) + enum_names(*db),
    ensures
        sdiags(final(diag).diags@) == sdiags(old(diag).diags@) + spec_type_diags_seq(
            v@,
            0,
            class_names(*db),
            enum_names(*db),
            names_model(cands@),
        ),
    decreases *v,
{
    let ghost cns = class_names(*db);
    let ghost ens = enum_names(*db);
    let ghost cm = names_model(cands@);
    let ghost base = old(diag).diags@;
    let mut i: usize = 0;
    while i < v.len()
        invariant
            i <= v@.len(),
            names_model(cands@) == class_names(*db) + enum_names(*db),
            cns == class_names(*db),
            ens == enum_names(*db),
            cm == names_model(cands@),
            sdiags(base) + spec_type_diags_seq(v@, 0, cns, ens, cm) =~= sdiags(diag.diags@)
                + spec_type_diags_seq(v@, i as int, cns, ens, cm),
        decreases v@.len() - i,
    {
        proof {
            assert(decreases_to!(*v => v@[i as int]));
        }
        let ghost before = diag.diags@;
        validate_type(diag, &v[i], db, cands);
        proof {
            assert(sdiags(diag.diags@) =~= sdiags(before) + spec_type_diags(
                v@[i as int],
                cns,
                ens,
                cm,
            ));
            assert(sdiags(before) + spec_type_diags_seq(v@, i as int, cns, ens, cm) =~= sdiags(
                diag.diags@,
            ) + spec_type_diags_seq(v@, i + 1 as int, cns, ens, cm));
        }
        i += 1;
    }
    proof {
        assert(sdiags(diag.diags@) =~= sdiags(base) + spec_type_diags_seq(v@, 0, cns, ens, cm));
    }
}

} // verus!
