use vstd::prelude::*;
use crate::field_type::{FieldType, SpecFieldType, sft};
use crate::text::str_eq;

verus! {

broadcast use vstd::std_specs::vec::group_vec_axioms;

/// One semantic finding inside a template body; offsets are bytes
/// relative to the template text's own start.
#[derive(Debug)]
pub struct Finding {
    pub message: String,
    pub start: usize,
    pub end: usize,
}

/// The model of a finding.
pub struct SpecFinding {
    pub message: Seq<char>,
    pub start: int,
    pub end: int,
}

pub open spec fn sfinding(f: Finding) -> SpecFinding {
    SpecFinding { message: f.message@, start: f.start as int, end: f.end as int }
}

/// The models of a sequence of findings.
pub open spec fn findings_model(v: Seq<Finding>) -> Seq<SpecFinding> {
    v.map_values(|f: Finding| sfinding(f))
}

/// The registered shape of one class: its name and its fields' types.
#[derive(Debug)]
pub struct ClassEntry {
    pub name: String,
    pub fields: Vec<(String, FieldType)>,
}

/// The registered signature of one template string.
#[derive(Debug)]
pub struct TemplateSig {
    pub name: String,
    pub args: Vec<(String, FieldType)>,
}

/// The model of a name-to-type binding list.
pub open spec fn bindings_model(v: Seq<(String, FieldType)>) -> Seq<(Seq<char>, SpecFieldType)> {
    v.map_values(|b: (String, FieldType)| (b.0@, sft(b.1)))
}

/// The model of the class registry.
pub open spec fn classes_model(v: Seq<ClassEntry>) -> Seq<
    (Seq<char>, Seq<(Seq<char>, SpecFieldType)>),
> {
    v.map_values(|c: ClassEntry| (c.name@, bindings_model(c.fields@)))
}

/// The model of the scope stack.
pub open spec fn scopes_model(v: Seq<Vec<(String, FieldType)>>) -> Seq<
    Seq<(Seq<char>, SpecFieldType)>,
> {
    v.map_values(|sc: Vec<(String, FieldType)>| bindings_model(sc@))
}

/// The binding a name resolves to in one binding list: the latest entry
/// of that name wins.
pub open spec fn lookup_binding(
    entries: Seq<(Seq<char>, SpecFieldType)>,
    name: Seq<char>,
) -> Option<SpecFieldType>
    decreases entries.len(),
{
    if entries.len() == 0 {
        None
    } else if entries.last().0 == name {
        Some(entries.last().1)
    } else {
        lookup_binding(entries.drop_last(), name)
    }
}

/// The fields a class name resolves to in the registry: the latest entry
/// of that name wins.
pub open spec fn lookup_class(
    classes: Seq<(Seq<char>, Seq<(Seq<char>, SpecFieldType)>)>,
    name: Seq<char>,
) -> Option<Seq<(Seq<char>, SpecFieldType)>>
    decreases classes.len(),
{
    if classes.len() == 0 {
        None
    } else if classes.last().0 == name {
        Some(classes.last().1)
    } else {
        lookup_class(classes.drop_last(), name)
    }
}

/// The type a variable name resolves to: the innermost scope that binds
/// the name wins.
pub open spec fn resolve_scopes(
    scopes: Seq<Seq<(Seq<char>, SpecFieldType)>>,
    name: Seq<char>,
) -> Option<SpecFieldType>
    decreases scopes.len(),
{
    if scopes.len() == 0 {
        None
    } else {
        match lookup_binding(scopes.last(), name) {
            Some(t) => Some(t),
            None => resolve_scopes(scopes.drop_last(), name),
        }
    }
}

/// The binding a name resolves to in one scope's binding vector.
fn assoc_find<'a>(entries: &'a Vec<(String, FieldType)>, name: &str) -> (r: Option<&'a FieldType>)
    ensures
        match r {
            Some(t) => lookup_binding(bindings_model(entries@), name@) == Some(sft(*t)),
            None => lookup_binding(bindings_model(entries@), name@) is None,
        },
{
    let ghost m = bindings_model(entries@);
    let mut i: usize = entries.len();
    proof {
        assert(m.take(i as int) =~= m);
    }
    while i > 0
        invariant
            i <= entries@.len(),
            m == bindings_model(entries@),
            m.len() == entries@.len(),
            lookup_binding(m, name@) == lookup_binding(m.take(i as int), name@),
        decreases i,
    {
        i -= 1;
        if str_eq(entries[i].0.as_str(), name) {
            proof {
                assert(m.take(i + 1 as int).last() == m[i as int]);
                assert(m[i as int].1 == sft(entries@[i as int].1));
            }
            return Some(&entries[i].1);
        }
        proof {
            assert(m.take(i + 1 as int).last() == m[i as int]);
            assert(m.take(i + 1 as int).drop_last() =~= m.take(i as int));
        }
    }
    proof {
        assert(m.take(0) =~= Seq::<(Seq<char>, SpecFieldType)>::empty());
    }
    None
}

/// The type environment of one validation pass: the global registry of
/// class shapes and template signatures, a stack of lexical scopes, and
/// a transient buffer of template findings cleared after each
/// declaration.
#[derive(Debug)]
pub struct PredefinedTypes {
    pub classes: Vec<ClassEntry>,
    pub templates: Vec<TemplateSig>,
    pub scopes: Vec<Vec<(String, FieldType)>>,
    pub errors: Vec<Finding>,
}

impl PredefinedTypes {
    /// An empty environment: no registered types, no scopes, no findings.
    pub fn new() -> (r: PredefinedTypes)
        ensures
            r.classes@.len() == 0,
            r.templates@.len() == 0,
            r.scopes@.len() == 0,
            r.errors@.len() == 0,
    {
        PredefinedTypes { classes: Vec::new(), templates: Vec::new(), scopes: Vec::new(), errors: Vec::new() }
    }

    /// Registers one class's field shapes.
    pub fn add_class(&mut self, name: String, fields: Vec<(String, FieldType)>)
        ensures
            final(self).classes@ == old(self).classes@.push(
                ClassEntry { name: name, fields: fields },
            ),
            final(self).templates == old(self).templates,
            final(self).scopes == old(self).scopes,
            final(self).errors == old(self).errors,
    {
        self.classes.push(ClassEntry { name, fields });
    }

    /// Registers one template string's signature.
    pub fn add_template(&mut self, name: String, args: Vec<(String, FieldType)>)
        ensures
            final(self).templates@ == old(self).templates@.push(
                TemplateSig { name: name, args: args },
            ),
            final(self).classes == old(self).classes,
            final(self).scopes == old(self).scopes,
            final(self).errors == old(self).errors,
    {
        self.templates.push(TemplateSig { name, args });
    }

    /// Pushes a fresh, empty lexical scope.
    pub fn start_scope(&mut self)
        ensures
            scopes_model(final(self).scopes@) =~~= scopes_model(old(self).scopes@).push(
                Seq::<(Seq<char>, SpecFieldType)>::empty(),
            ),
            final(self).classes == old(self).classes,
            final(self).templates == old(self).templates,
            final(self).errors == old(self).errors,
    {
        self.scopes.push(Vec::new());
        proof {
            assert(scopes_model(self.scopes@) =~~= scopes_model(old(self).scopes@).push(
                Seq::<(Seq<char>, SpecFieldType)>::empty(),
            ));
        }
    }

    /// Pops the innermost lexical scope, if any.
    pub fn end_scope(&mut self)
        ensures
            old(self).scopes@.len() == 0 ==> final(self).scopes == old(self).scopes,
            old(self).scopes@.len() > 0 ==> scopes_model(final(self).scopes@) =~~= scopes_model(
                old(self).scopes@,
            ).drop_last(),
            final(self).classes == old(self).classes,
            final(self).templates == old(self).templates,
            final(self).errors == old(self).errors,
    {
        if self.scopes.len() > 0 {
            let _ = self.scopes.pop();
            proof {
                assert(scopes_model(self.scopes@) =~~= scopes_model(old(self).scopes@).drop_last());
            }
        }
    }

    /// Binds a variable in the innermost scope; without an open scope the
    /// binding is dropped.
    pub fn add_variable(&mut self, name: String, ty: FieldType)
        ensures
            old(self).scopes@.len() == 0 ==> final(self).scopes == old(self).scopes,
            old(self).scopes@.len() > 0 ==> scopes_model(final(self).scopes@) =~~= scopes_model(
                old(self).scopes@,
            ).update(
                old(self).scopes@.len() - 1,
                scopes_model(old(self).scopes@).last().push((name@, sft(ty))),
            ),
            final(self).classes == old(self).classes,
            final(self).templates == old(self).templates,
            final(self).errors == old(self).errors,
    {
        if self.scopes.len() > 0 {
            match self.scopes.pop() {
                Some(mut sc) => {
                    let ghost scv = sc@;
                    sc.push((name, ty));
                    proof {
                        assert(bindings_model(sc@) =~= bindings_model(scv).push((name@, sft(ty))));
                    }
                    self.scopes.push(sc);
                    proof {
                        assert(scopes_model(self.scopes@) =~~= scopes_model(
                            old(self).scopes@,
                        ).update(
                            old(self).scopes@.len() - 1,
                            scopes_model(old(self).scopes@).last().push((name@, sft(ty))),
                        ));
                    }
                }
                None => {}
            }
        }
    }

    /// Clears the transient finding buffer.
    pub fn clear_errors(&mut self)
        ensures
            final(self).errors@.len() == 0,
            final(self).classes == old(self).classes,
            final(self).templates == old(self).templates,
            final(self).scopes == old(self).scopes,
    {
        self.errors = Vec::new();
    }

    /// Resolves a variable name through the scope stack, innermost first.
    pub fn resolve<'a>(&'a self, name: &str) -> (r: Option<&'a FieldType>)
        ensures
            match r {
                Some(t) => resolve_scopes(scopes_model(self.scopes@), name@) == Some(sft(*t)),
                None => resolve_scopes(scopes_model(self.scopes@), name@) is None,
            },
    {
        let ghost m = scopes_model(self.scopes@);
        let mut i: usize = self.scopes.len();
        proof {
            assert(m.take(i as int) =~= m);
        }
        while i > 0
            invariant
                i <= self.scopes@.len(),
                m == scopes_model(self.scopes@),
                m.len() == self.scopes@.len(),
                resolve_scopes(m, name@) == resolve_scopes(m.take(i as int), name@),
            decreases i,
        {
            i -= 1;
            proof {
                assert(m.take(i + 1 as int).last() == m[i as int]);
                assert(m.take(i + 1 as int).drop_last() =~= m.take(i as int));
                assert(m[i as int] == bindings_model(self.scopes@[i as int]@));
            }
            match assoc_find(&self.scopes[i], name) {
                Some(t) => {
                    return Some(t);
                }
                None => {}
            }
        }
        proof {
            assert(m.take(0) =~= Seq::<Seq<(Seq<char>, SpecFieldType)>>::empty());
        }
        None
    }

    /// Finds the registered field shapes of a class name; the latest
    /// registration wins.
    pub fn find_class_fields<'a>(&'a self, name: &str) -> (r: Option<
        &'a Vec<(String, FieldType)>,
    >)
        ensures
            match r {
                Some(v) => lookup_class(classes_model(self.classes@), name@) == Some(
                    bindings_model(v@),
                ),
                None => lookup_class(classes_model(self.classes@), name@) is None,
            },
    {
        let ghost m = classes_model(self.classes@);
        let mut i: usize = self.classes.len();
        proof {
            assert(m.take(i as int) =~= m);
        }
        while i > 0
            invariant
                i <= self.classes@.len(),
                m == classes_model(self.classes@),
                m.len() == self.classes@.len(),
                lookup_class(m, name@) == lookup_class(m.take(i as int), name@),
            decreases i,
        {
            i -= 1;
            proof {
                assert(m.take(i + 1 as int).last() == m[i as int]);
                assert(m.take(i + 1 as int).drop_last() =~= m.take(i as int));
            }
            if str_eq(self.classes[i].name.as_str(), name) {
                return Some(&self.classes[i].fields);
            }
        }
        proof {
            assert(m.take(0) =~= Seq::<(Seq<char>, Seq<(Seq<char>, SpecFieldType)>)>::empty());
        }
        None
    }

    /// Looks a field up in a class's registered field shapes; the latest
    /// field of that name wins.
    pub fn field_in<'a>(fields: &'a Vec<(String, FieldType)>, name: &str) -> (r: Option<
        &'a FieldType,
    >)
        ensures
            match r {
                Some(t) => lookup_binding(bindings_model(fields@), name@) == Some(sft(*t)),
                None => lookup_binding(bindings_model(fields@), name@) is None,
            },
    {
        assoc_find(fields, name)
    }
}

} // verus!
