use vstd::prelude::*;
use crate::ast::{ClassField, ClientRef, Database, FuncArg, StringLit, TemplateArg, TemplateDecl,
    FunctionDecl, class_names, client_names, enum_names};
use crate::diagnostics::{Diagnostics, Severity, Span, SpecDiag, SpecSpan, sdiags, sspan,
    spec_not_found_message};
use crate::env::{PredefinedTypes, bindings_model, classes_model, findings_model, scopes_model};
use crate::field_type::{SpecFieldType, sft};
use crate::template::{byte_at, lemma_scan_findings_bounded, scan, validate_template};
use crate::text::names_model;
use crate::types::{spec_project, spec_type_diags, to_field_type, validate_type};
use crate::env::Finding;

verus! {

broadcast use vstd::std_specs::vec::group_vec_axioms;

/// A literal is well formed when its text fits inside its own span:
/// the span's start plus the text's UTF-8 byte length stays within the
/// span's end.
pub open spec fn lit_wf(l: StringLit) -> bool {
    l.span.start + crate::tracing::spec_byte_len(l.value@) <= l.span.end
}

/// A database is well formed when every template body and every prompt
/// fits inside its span.
pub open spec fn db_wf(db: Database) -> bool {
    &&& forall|i: int|
        0 <= i < db.templates@.len() ==> match #[trigger] db.templates@[i].body {
            Some(lit) => lit_wf(lit),
            None => true,
        }
    &&& forall|i: int|
        0 <= i < db.functions@.len() ==> match #[trigger] db.functions@[i].prompt {
            Some(lit) => lit_wf(lit),
            None => true,
        }
}

pub open spec fn msg_missing_client() -> Seq<char> {
    "Client metadata is missing."@
}

pub open spec fn msg_missing_prompt() -> Seq<char> {
    "Prompt metadata is missing."@
}

pub open spec fn msg_missing_arg_name() -> Seq<char> {
    "Argument name is missing."@
}

pub open spec fn msg_template_not_raw() -> Seq<char> {
    "Template string must be a raw string literal like `template_string MyTemplate(myArg: string) #\"\n\n\"#`"@
}

pub open spec fn sdiag_err(m: Seq<char>, sp: SpecSpan) -> SpecDiag {
    SpecDiag { severity: Severity::Error, message: m, span: sp }
}

/// The field shapes one class contributes to the global registry.
pub open spec fn spec_class_fields(
    fields: Seq<ClassField>,
    cns: Seq<Seq<char>>,
    ens: Seq<Seq<char>>,
) -> Seq<(Seq<char>, SpecFieldType)> {
    fields.map_values(|f: ClassField| (f.name@, spec_project(f.ty, cns, ens)))
}

/// The global class registry the builder produces: every declared class's
/// field shapes, independent of declaration order.
pub open spec fn spec_registry_classes(db: Database) -> Seq<
    (Seq<char>, Seq<(Seq<char>, SpecFieldType)>),
> {
    db.classes@.map_values(
        |c: crate::ast::ClassDecl| (c.name@, spec_class_fields(c.fields@, class_names(db), enum_names(db))),
    )
}

/// The scope bindings a template declaration's arguments produce.
pub open spec fn spec_template_bindings(
    args: Seq<TemplateArg>,
    cns: Seq<Seq<char>>,
    ens: Seq<Seq<char>>,
) -> Seq<(Seq<char>, SpecFieldType)> {
    args.map_values(|a: TemplateArg| (a.name@, spec_project(a.ty, cns, ens)))
}

/// The scope bindings a function's named inputs produce, from index `i`
/// on; unnamed arguments bind nothing.
pub open spec fn spec_func_bindings(
    args: Seq<FuncArg>,
    i: int,
    cns: Seq<Seq<char>>,
    ens: Seq<Seq<char>>,
) -> Seq<(Seq<char>, SpecFieldType)>
    decreases args.len() - i,
{
    if i < 0 || i >= args.len() {
        Seq::empty()
    } else {
        (match args[i].name {
            Some(n) => seq![(n@, spec_project(args[i].ty, cns, ens))],
            None => Seq::empty(),
        }) + spec_func_bindings(args, i + 1, cns, ens)
    }
}

/// The errors that binding a function's inputs produces, from index `i`
/// on: one per unnamed argument, at the argument type's span.
pub open spec fn spec_argname_diags(args: Seq<FuncArg>, i: int) -> Seq<SpecDiag>
    decreases args.len() - i,
{
    if i < 0 || i >= args.len() {
        Seq::empty()
    } else {
        (match args[i].name {
            Some(_) => Seq::empty(),
            None => seq![sdiag_err(msg_missing_arg_name(), sspan(args[i].ty_span))],
        }) + spec_argname_diags(args, i + 1)
    }
}

/// The diagnostics of validating the types of the arguments from index
/// `i` on.
pub open spec fn spec_arg_type_diags(
    args: Seq<FuncArg>,
    i: int,
    cns: Seq<Seq<char>>,
    ens: Seq<Seq<char>>,
    cands: Seq<Seq<char>>,
) -> Seq<SpecDiag>
    decreases args.len() - i,
{
    if i < 0 || i >= args.len() {
        Seq::empty()
    } else {
        spec_type_diags(args[i].ty, cns, ens, cands) + spec_arg_type_diags(
            args,
            i + 1,
            cns,
            ens,
            cands,
        )
    }
}

/// Template findings, re-spanned to absolute file offsets and downgraded
/// to warnings by policy.
pub open spec fn spec_warned(
    findings: Seq<crate::env::SpecFinding>,
    file: Seq<char>,
    base: int,
) -> Seq<SpecDiag> {
    findings.map_values(
        |f: crate::env::SpecFinding| SpecDiag {
            severity: Severity::Warning,
            message: f.message,
            span: SpecSpan { file: file, start: base + f.start, end: base + f.end },
        },
    )
}

/// The diagnostics one template declaration contributes: a hard error
/// when the body is not a raw string literal; otherwise the checker's
/// findings as warnings, or nothing at all on a parse-level failure
/// (an explicit, intentional suppression of template syntax issues).
pub open spec fn spec_template_batch(db: Database, t: TemplateDecl) -> Seq<SpecDiag> {
    match t.body {
        None => seq![sdiag_err(msg_template_not_raw(), sspan(t.name_span))],
        Some(lit) => {
            let out = scan(
                lit.value@,
                0,
                seq![spec_template_bindings(t.args@, class_names(db), enum_names(db))],
                spec_registry_classes(db),
            );
            if out.parse_failed {
                Seq::empty()
            } else {
                spec_warned(out.findings, lit.span.file@, lit.span.start as int)
            }
        }
    }
}

/// The diagnostics a function's client reference contributes: a missing
/// client annotation is a distinct error spanning the whole function; an
/// inline specification always resolves; an unresolved name yields a
/// not-found error whose candidates are every declared client name.
pub open spec fn spec_client_diags(db: Database, f: FunctionDecl) -> Seq<SpecDiag> {
    match f.client {
        None => seq![sdiag_err(msg_missing_client(), sspan(f.span))],
        Some(ClientRef::Inline) => Seq::empty(),
        Some(ClientRef::Named(n, sp)) => if client_names(db).contains(n@) {
            Seq::empty()
        } else {
            seq![
                sdiag_err(spec_not_found_message("Client"@, n@, client_names(db)), sspan(sp)),
            ]
        },
    }
}

/// The diagnostics a function's prompt contributes: a missing prompt is
/// an error spanning the whole function and the template check is
/// skipped; otherwise the binding errors of unnamed arguments, then the
/// checker's findings as warnings (none on a parse-level failure).
pub open spec fn spec_prompt_diags(db: Database, f: FunctionDecl) -> Seq<SpecDiag> {
    match f.prompt {
        None => seq![sdiag_err(msg_missing_prompt(), sspan(f.span))],
        Some(lit) => spec_argname_diags(f.inputs@, 0) + ({
            let out = scan(
                lit.value@,
                0,
                seq![spec_func_bindings(f.inputs@, 0, class_names(db), enum_names(db))],
                spec_registry_classes(db),
            );
            if out.parse_failed {
                Seq::empty()
            } else {
                spec_warned(out.findings, lit.span.file@, lit.span.start as int)
            }
        }),
    }
}

/// The diagnostics one function declaration contributes: its argument
/// types are validated first, then its client reference, then its prompt;
/// no part's failure skips the parts before it.
pub open spec fn spec_function_batch(db: Database, f: FunctionDecl) -> Seq<SpecDiag> {
    spec_arg_type_diags(
        f.inputs@,
        0,
        class_names(db),
        enum_names(db),
        class_names(db) + enum_names(db),
    ) + spec_arg_type_diags(
        f.outputs@,
        0,
        class_names(db),
        enum_names(db),
        class_names(db) + enum_names(db),
    ) + spec_client_diags(db, f) + spec_prompt_diags(db, f)
}

/// The diagnostics of the template declarations from index `i` on.
pub open spec fn spec_templates_diags(db: Database, i: int) -> Seq<SpecDiag>
    decreases db.templates@.len() - i,
{
    if i < 0 || i >= db.templates@.len() {
        Seq::empty()
    } else {
        spec_template_batch(db, db.templates@[i]) + spec_templates_diags(db, i + 1)
    }
}

/// The diagnostics of the function declarations from index `i` on.
pub open spec fn spec_functions_diags(db: Database, i: int) -> Seq<SpecDiag>
    decreases db.functions@.len() - i,
{
    if i < 0 || i >= db.functions@.len() {
        Seq::empty()
    } else {
        spec_function_batch(db, db.functions@[i]) + spec_functions_diags(db, i + 1)
    }
}

/// Everything one validation pass reports: every template declaration's
/// batch in declaration order, then every function declaration's batch in
/// declaration order.
pub open spec fn spec_validate(db: Database) -> Seq<SpecDiag> {
    spec_templates_diags(db, 0) + spec_functions_diags(db, 0)
}

/// Builds the global type registry: every class's field shapes and every
/// template's signature, before any per-declaration validation.
fn build_env(db: &Database) -> (env: PredefinedTypes)
    ensures
        classes_model(env.classes@) == spec_registry_classes(*db),
        env.scopes@.len() == 0,
        env.errors@.len() == 0,
{
    let ghost cns = class_names(*db);
    let ghost ens = enum_names(*db);
    let mut env = PredefinedTypes::new();
    let mut i: usize = 0;
    while i < db.classes.len()
        invariant
            i <= db.classes@.len(),
            cns == class_names(*db),
            ens == enum_names(*db),
            classes_model(env.classes@) =~= spec_registry_classes(*db).take(i as int),
            env.scopes@.len() == 0,
            env.errors@.len() == 0,
        decreases db.classes@.len() - i,
    {
        let c = &db.classes[i];
        let mut fields: Vec<(String, crate::field_type::FieldType)> = Vec::new();
        let mut j: usize = 0;
        while j < c.fields.len()
            invariant
                j <= c.fields@.len(),
                cns == class_names(*db),
                ens == enum_names(*db),
                fields@.len() == j,
                forall|k: int|
                    0 <= k < j ==> fields@[k].0@ == c.fields@[k].name@ && sft(fields@[k].1)
                        == spec_project(c.fields@[k].ty, cns, ens),
            decreases c.fields@.len() - j,
        {
            let fld = &c.fields[j];
            fields.push((fld.name.clone(), to_field_type(&fld.ty, db)));
            j += 1;
        }
        proof {
            assert(bindings_model(fields@) =~= spec_class_fields(c.fields@, cns, ens));
        }
        let ghost prevc = env.classes@;
        env.add_class(c.name.clone(), fields);
        proof {
            let e = env.classes@.last();
            assert(classes_model(prevc).len() == prevc.len());
            assert(prevc.len() == i as int);
            assert(env.classes@ == prevc.push(e));
            assert(env.classes@[i as int] == e);
            assert(classes_model(env.classes@)[i as int] == (e.name@, bindings_model(e.fields@)));
            assert(e.fields@ == fields@);
            assert(classes_model(env.classes@)[i as int].1 == spec_class_fields(
                db.classes@[i as int].fields@,
                cns,
                ens,
            ));
            assert(spec_registry_classes(*db)[i as int] == (
                db.classes@[i as int].name@,
                spec_class_fields(db.classes@[i as int].fields@, cns, ens),
            ));
            assert(classes_model(env.classes@) =~= spec_registry_classes(*db).take(i + 1 as int));
        }
        i += 1;
    }
    proof {
        assert(spec_registry_classes(*db).take(db.classes@.len() as int) =~= spec_registry_classes(
            *db,
        ));
        assert(classes_model(env.classes@) =~= spec_registry_classes(*db));
    }
    let mut k: usize = 0;
    while k < db.templates.len()
        invariant
            k <= db.templates@.len(),
            classes_model(env.classes@) == spec_registry_classes(*db),
            env.scopes@.len() == 0,
            env.errors@.len() == 0,
        decreases db.templates@.len() - k,
    {
        let t = &db.templates[k];
        let mut args: Vec<(String, crate::field_type::FieldType)> = Vec::new();
        let mut j: usize = 0;
        while j < t.args.len()
            invariant
                j <= t.args@.len(),
            decreases t.args@.len() - j,
        {
            let a = &t.args[j];
            args.push((a.name.clone(), to_field_type(&a.ty, db)));
            j += 1;
        }
        env.add_template(t.name.clone(), args);
        k += 1;
    }
    env
}

/// Re-spans the checker's findings to absolute file offsets and records
/// them as warnings, in order.
fn push_findings_as_warnings(
    diag: &mut Diagnostics,
    file: &String,
    base: usize,
    errs: &Vec<Finding>,
)
    requires
        forall|k: int|
            0 <= k < errs@.len() ==> {
                let f = #[trigger] findings_model(errs@)[k];
                0 <= f.start <= f.end && base + f.end <= usize::MAX
            },
    ensures
        sdiags(final(diag).diags@) == sdiags(old(diag).diags@) + spec_warned(
            findings_model(errs@),
            file@,
            base as int,
        ),
{
    let ghost fm = findings_model(errs@);
    let ghost w = spec_warned(fm, file@, base as int);
    let mut i: usize = 0;
    while i < errs.len()
        invariant
            i <= errs@.len(),
            fm == findings_model(errs@),
            w == spec_warned(fm, file@, base as int),
            fm.len() == errs@.len(),
            w.len() == errs@.len(),
            forall|k: int|
                0 <= k < errs@.len() ==> {
                    let f = #[trigger] findings_model(errs@)[k];
                    0 <= f.start <= f.end && base + f.end <= usize::MAX
                },
            sdiags(diag.diags@) =~= sdiags(old(diag).diags@) + w.take(i as int),
        decreases errs@.len() - i,
    {
        let f = &errs[i];
        proof {
            assert(fm[i as int] == crate::env::sfinding(errs@[i as int]));
        }
        let ghost prev = diag.diags@;
        diag.push_warning(
            f.message.clone(),
            Span { file: file.clone(), start: base + f.start, end: base + f.end },
        );
        proof {
            crate::diagnostics::lemma_sdiags_push(prev, diag.diags@.last());
            assert(w.take(i + 1 as int) =~= w.take(i as int).push(w[i as int]));
            assert(sdiags(diag.diags@) =~= sdiags(old(diag).diags@) + w.take(i + 1 as int));
        }
        i += 1;
    }
    proof {
        assert(w.take(errs@.len() as int) =~= w);
        assert(sdiags(diag.diags@) =~= sdiags(old(diag).diags@) + w);
    }
}

/// Validates one template declaration: the body must be a raw string
/// literal; its references are checked in a scope of its arguments; the
/// findings become warnings; the scope and the finding buffer are
/// restored before the next declaration.
#[verifier::rlimit(100)]
fn check_template_decl(
    diag: &mut Diagnostics,
    env: &mut PredefinedTypes,
    db: &Database,
    t: &TemplateDecl,
)
    requires
        classes_model(old(env).classes@) == spec_registry_classes(*db),
        old(env).scopes@.len() == 0,
        old(env).errors@.len() == 0,
        match t.body {
            Some(lit) => lit_wf(lit),
            None => true,
        },
    ensures
        sdiags(final(diag).diags@) == sdiags(old(diag).diags@) + spec_template_batch(*db, *t),
        classes_model(final(env).classes@) == spec_registry_classes(*db),
        final(env).scopes@.len() == 0,
        final(env).errors@.len() == 0,
{
    let ghost cns = class_names(*db);
    let ghost ens = enum_names(*db);
    match &t.body {
        None => {
            let ghost prev = diag.diags@;
            diag.push_error(
                "Template string must be a raw string literal like `template_string MyTemplate(myArg: string) #\"\n\n\"#`".to_owned(),
                t.name_span.clone(),
            );
            proof {
                crate::diagnostics::lemma_sdiags_push(prev, diag.diags@.last());
                assert(sdiags(diag.diags@) =~= sdiags(old(diag).diags@) + spec_template_batch(
                    *db,
                    *t,
                ));
            }
        }
        Some(lit) => {
            env.start_scope();
            let ghost stb = spec_template_bindings(t.args@, cns, ens);
            proof {
                assert(scopes_model(env.scopes@).len() == 1);
                assert(bindings_model(env.scopes@[0]@) == scopes_model(env.scopes@)[0]);
                assert(bindings_model(env.scopes@[0]@) =~= stb.take(0));
            }
            let mut j: usize = 0;
            while j < t.args.len()
                invariant
                    j <= t.args@.len(),
                    cns == class_names(*db),
                    ens == enum_names(*db),
                    stb == spec_template_bindings(t.args@, cns, ens),
                    env.scopes@.len() == 1,
                    bindings_model(env.scopes@[0]@) =~= stb.take(j as int),
                    classes_model(env.classes@) == spec_registry_classes(*db),
                    env.errors@.len() == 0,
                decreases t.args@.len() - j,
            {
                let a = &t.args[j];
                let ghost bmprev = bindings_model(env.scopes@[0]@);
                env.add_variable(a.name.clone(), to_field_type(&a.ty, db));
                proof {
                    assert(scopes_model(env.scopes@)[0] == bindings_model(env.scopes@[0]@));
                    assert(bindings_model(env.scopes@[0]@) == bmprev.push(stb[j as int]));
                    assert(stb.take(j + 1 as int) =~= stb.take(j as int).push(stb[j as int]));
                    assert(bindings_model(env.scopes@[0]@) =~= stb.take(j + 1 as int));
                }
                j += 1;
            }
            proof {
                assert(stb.take(t.args@.len() as int) =~= stb);
                assert(scopes_model(env.scopes@) =~= seq![stb]);
            }
            let ghost pre_env = *env;
            proof {
                assert(lit_wf(*lit));
                crate::template::lemma_byte_at_is_byte_len(lit.value@);
            }
            let res = validate_template(t.name.as_str(), lit.value.as_str(), env);
            let ghost out = scan(
                lit.value@,
                0,
                scopes_model(pre_env.scopes@),
                classes_model(pre_env.classes@),
            );
            proof {
                assert(scopes_model(pre_env.scopes@) == seq![stb]);
                assert(out == scan(lit.value@, 0, seq![stb], spec_registry_classes(*db)));
            }
            match res {
                Ok(_) => {
                    proof {
                        assert(!out.parse_failed);
                        assert(findings_model(pre_env.errors@) =~= Seq::<
                            crate::env::SpecFinding,
                        >::empty());
                        assert(out.findings.len() == 0);
                        assert(out.findings =~= Seq::<crate::env::SpecFinding>::empty());
                        assert(spec_warned(out.findings, lit.span.file@, lit.span.start as int)
                            =~= Seq::<SpecDiag>::empty());
                        assert(spec_template_batch(*db, *t) =~= Seq::<SpecDiag>::empty());
                        assert(sdiags(diag.diags@) =~= sdiags(old(diag).diags@)
                            + spec_template_batch(*db, *t));
                    }
                }
                Err(e) => {
                    if e.parsing_errors.is_some() {
                        // Parse-level template issues are suppressed by policy:
                        // an explicit suppression, not an accidental drop.
                        proof {
                            assert(out.parse_failed);
                            assert(spec_template_batch(*db, *t) =~= Seq::<SpecDiag>::empty());
                            assert(sdiags(diag.diags@) =~= sdiags(old(diag).diags@)
                                + spec_template_batch(*db, *t));
                        }
                    } else {
                        proof {
                            assert(!out.parse_failed);
                            assert(findings_model(pre_env.errors@) =~= Seq::<
                                crate::env::SpecFinding,
                            >::empty());
                            assert(findings_model(e.errors@) =~= out.findings);
                            lemma_scan_findings_bounded(
                                lit.value@,
                                0,
                                seq![stb],
                                spec_registry_classes(*db),
                            );
                            assert(lit.span.start + byte_at(lit.value@, lit.value@.len() as int)
                                <= usize::MAX);
                        }
                        push_findings_as_warnings(diag, &lit.span.file, lit.span.start, &e.errors);
                        proof {
                            assert(spec_warned(
                                findings_model(e.errors@),
                                lit.span.file@,
                                lit.span.start as int,
                            ) =~= spec_warned(out.findings, lit.span.file@, lit.span.start as int));
                            assert(sdiags(diag.diags@) =~= sdiags(old(diag).diags@)
                                + spec_template_batch(*db, *t));
                        }
                    }
                }
            }
            env.end_scope();
            env.clear_errors();
        }
    }
}

/// Validates one function declaration: every argument type, the client
/// reference, the prompt's presence, and the prompt's template, each
/// independently of the others' failures.
#[verifier::rlimit(100)]
fn check_function_decl(
    diag: &mut Diagnostics,
    env: &mut PredefinedTypes,
    db: &Database,
    f: &FunctionDecl,
    clients: &Vec<String>,
    cands: &Vec<String>,
)
    requires
        classes_model(old(env).classes@) == spec_registry_classes(*db),
        old(env).scopes@.len() == 0,
        old(env).errors@.len() == 0,
        names_model(clients@) == client_names(*db),
        names_model(cands@) == class_names(*db) + enum_names(*db),
        match f.prompt {
            Some(lit) => lit_wf(lit),
            None => true,
        },
    ensures
        sdiags(final(diag).diags@) == sdiags(old(diag).diags@) + spec_function_batch(*db, *f),
        classes_model(final(env).classes@) == spec_registry_classes(*db),
        final(env).scopes@.len() == 0,
        final(env).errors@.len() == 0,
{
    let ghost cns = class_names(*db);
    let ghost ens = enum_names(*db);
    let ghost cm = names_model(cands@);
    let ghost base0 = diag.diags@;
    let ghost in_diags = spec_arg_type_diags(f.inputs@, 0, cns, ens, cm);
    let ghost out_diags = spec_arg_type_diags(f.outputs@, 0, cns, ens, cm);
    let mut j: usize = 0;
    while j < f.inputs.len()
        invariant
            j <= f.inputs@.len(),
            cns == class_names(*db),
            ens == enum_names(*db),
            cm == names_model(cands@),
            names_model(cands@) == class_names(*db) + enum_names(*db),
            sdiags(base0) + spec_arg_type_diags(f.inputs@, 0, cns, ens, cm) =~= sdiags(diag.diags@)
                + spec_arg_type_diags(f.inputs@, j as int, cns, ens, cm),
        decreases f.inputs@.len() - j,
    {
        let ghost before = diag.diags@;
        validate_type(diag, &f.inputs[j].ty, db, cands);
        proof {
            assert(sdiags(before) + spec_arg_type_diags(f.inputs@, j as int, cns, ens, cm)
                =~= sdiags(diag.diags@) + spec_arg_type_diags(f.inputs@, j + 1 as int, cns, ens, cm));
        }
        j += 1;
    }
    proof {
        assert(sdiags(diag.diags@) =~= sdiags(base0) + in_diags);
    }
    let ghost base1 = diag.diags@;
    let mut j2: usize = 0;
    while j2 < f.outputs.len()
        invariant
            j2 <= f.outputs@.len(),
            cns == class_names(*db),
            ens == enum_names(*db),
            cm == names_model(cands@),
            names_model(cands@) == class_names(*db) + enum_names(*db),
            sdiags(base1) + spec_arg_type_diags(f.outputs@, 0, cns, ens, cm) =~= sdiags(
                diag.diags@,
            ) + spec_arg_type_diags(f.outputs@, j2 as int, cns, ens, cm),
        decreases f.outputs@.len() - j2,
    {
        let ghost before = diag.diags@;
        validate_type(diag, &f.outputs[j2].ty, db, cands);
        proof {
            assert(sdiags(before) + spec_arg_type_diags(f.outputs@, j2 as int, cns, ens, cm)
                =~= sdiags(diag.diags@) + spec_arg_type_diags(
                f.outputs@,
                j2 + 1 as int,
                cns,
                ens,
                cm,
            ));
        }
        j2 += 1;
    }
    proof {
        assert(sdiags(diag.diags@) =~= sdiags(base0) + in_diags + out_diags);
    }
    let ghost base2 = diag.diags@;
    match &f.client {
        None => {
            let ghost prev = diag.diags@;
            diag.push_error("Client metadata is missing.".to_owned(), f.span.clone());
            proof {
                crate::diagnostics::lemma_sdiags_push(prev, diag.diags@.last());
                assert(sdiags(diag.diags@) =~= sdiags(base2) + spec_client_diags(*db, *f));
            }
        }
        Some(ClientRef::Inline) => {
            proof {
                assert(sdiags(diag.diags@) =~= sdiags(base2) + spec_client_diags(*db, *f));
            }
        }
        Some(ClientRef::Named(n, sp)) => {
            if !db.has_client(n.as_str()) {
                diag.not_found_error("Client", n.as_str(), sp.clone(), clients);
                proof {
                    assert(sdiags(diag.diags@) =~= sdiags(base2) + spec_client_diags(*db, *f));
                }
            } else {
                proof {
                    assert(sdiags(diag.diags@) =~= sdiags(base2) + spec_client_diags(*db, *f));
                }
            }
        }
    }
    let ghost base3 = diag.diags@;
    proof {
        assert(sdiags(base3) =~= sdiags(base0) + in_diags + out_diags + spec_client_diags(
            *db,
            *f,
        ));
    }
    match &f.prompt {
        None => {
            let ghost prev = diag.diags@;
            diag.push_error("Prompt metadata is missing.".to_owned(), f.span.clone());
            proof {
                crate::diagnostics::lemma_sdiags_push(prev, diag.diags@.last());
                assert(sdiags(diag.diags@) =~= sdiags(base3) + spec_prompt_diags(*db, *f));
                assert(sdiags(diag.diags@) =~= sdiags(old(diag).diags@) + spec_function_batch(
                    *db,
                    *f,
                ));
            }
        }
        Some(lit) => {
            env.start_scope();
            let ghost sfb = spec_func_bindings(f.inputs@, 0, cns, ens);
            let ghost sad = spec_argname_diags(f.inputs@, 0);
            proof {
                assert(scopes_model(env.scopes@).len() == 1);
                assert(bindings_model(env.scopes@[0]@) == scopes_model(env.scopes@)[0]);
                assert(bindings_model(env.scopes@[0]@) =~= Seq::<(Seq<char>, SpecFieldType)>::empty());
            }
            let mut k: usize = 0;
            while k < f.inputs.len()
                invariant
                    k <= f.inputs@.len(),
                    cns == class_names(*db),
                    ens == enum_names(*db),
                    env.scopes@.len() == 1,
                    classes_model(env.classes@) == spec_registry_classes(*db),
                    env.errors@.len() == 0,
                    bindings_model(env.scopes@[0]@) + spec_func_bindings(f.inputs@, k as int, cns, ens)
                        =~= spec_func_bindings(f.inputs@, 0, cns, ens),
                    sdiags(base3) + spec_argname_diags(f.inputs@, 0) =~= sdiags(diag.diags@)
                        + spec_argname_diags(f.inputs@, k as int),
                decreases f.inputs@.len() - k,
            {
                let arg = &f.inputs[k];
                let ghost bm = bindings_model(env.scopes@[0]@);
                let ghost dprev = diag.diags@;
                match &arg.name {
                    None => {
                        diag.push_error("Argument name is missing.".to_owned(), arg.ty_span.clone());
                        proof {
                            crate::diagnostics::lemma_sdiags_push(dprev, diag.diags@.last());
                            assert(sdiags(dprev) + spec_argname_diags(f.inputs@, k as int)
                                =~= sdiags(diag.diags@) + spec_argname_diags(
                                f.inputs@,
                                k + 1 as int,
                            ));
                        }
                    }
                    Some(n) => {
                        env.add_variable(n.clone(), to_field_type(&arg.ty, db));
                        proof {
                            assert(scopes_model(env.scopes@)[0] == bindings_model(
                                env.scopes@[0]@,
                            ));
                            assert(bindings_model(env.scopes@[0]@) == bm.push(
                                (n@, spec_project(arg.ty, cns, ens)),
                            ));
                            assert(bm.push((n@, spec_project(arg.ty, cns, ens)))
                                + spec_func_bindings(f.inputs@, k + 1 as int, cns, ens) =~= bm
                                + spec_func_bindings(f.inputs@, k as int, cns, ens));
                        }
                    }
                }
                k += 1;
            }
            proof {
                assert(bindings_model(env.scopes@[0]@) =~= sfb);
                assert(scopes_model(env.scopes@) =~= seq![sfb]);
                assert(sdiags(diag.diags@) =~= sdiags(base3) + sad);
            }
            let ghost pre_env = *env;
            proof {
                assert(lit_wf(*lit));
                crate::template::lemma_byte_at_is_byte_len(lit.value@);
            }
            let res = validate_template(f.name.as_str(), lit.value.as_str(), env);
            let ghost out = scan(
                lit.value@,
                0,
                scopes_model(pre_env.scopes@),
                classes_model(pre_env.classes@),
            );
            proof {
                assert(scopes_model(pre_env.scopes@) == seq![sfb]);
                assert(out == scan(lit.value@, 0, seq![sfb], spec_registry_classes(*db)));
            }
            match res {
                Ok(_) => {
                    proof {
                        assert(!out.parse_failed);
                        assert(findings_model(pre_env.errors@) =~= Seq::<
                            crate::env::SpecFinding,
                        >::empty());
                        assert(out.findings.len() == 0);
                        assert(out.findings =~= Seq::<crate::env::SpecFinding>::empty());
                        assert(spec_warned(out.findings, lit.span.file@, lit.span.start as int)
                            =~= Seq::<SpecDiag>::empty());
                        assert(sdiags(diag.diags@) =~= sdiags(base3) + spec_prompt_diags(*db, *f));
                    }
                }
                Err(e) => {
                    if e.parsing_errors.is_some() {
                        // Parse-level template issues are suppressed by policy.
                        proof {
                            assert(out.parse_failed);
                            assert(sdiags(diag.diags@) =~= sdiags(base3) + spec_prompt_diags(
                                *db,
                                *f,
                            ));
                        }
                    } else {
                        proof {
                            assert(!out.parse_failed);
                            assert(findings_model(pre_env.errors@) =~= Seq::<
                                crate::env::SpecFinding,
                            >::empty());
                            assert(findings_model(e.errors@) =~= out.findings);
                            lemma_scan_findings_bounded(
                                lit.value@,
                                0,
                                seq![sfb],
                                spec_registry_classes(*db),
                            );
                            assert(lit.span.start + byte_at(lit.value@, lit.value@.len() as int)
                                <= usize::MAX);
                        }
                        push_findings_as_warnings(diag, &lit.span.file, lit.span.start, &e.errors);
                        proof {
                            assert(spec_warned(
                                findings_model(e.errors@),
                                lit.span.file@,
                                lit.span.start as int,
                            ) =~= spec_warned(out.findings, lit.span.file@, lit.span.start as int));
                            assert(sdiags(diag.diags@) =~= sdiags(base3) + spec_prompt_diags(
                                *db,
                                *f,
                            ));
                        }
                    }
                }
            }
            env.end_scope();
            env.clear_errors();
            proof {
                assert(sdiags(diag.diags@) =~= sdiags(old(diag).diags@) + spec_function_batch(
                    *db,
                    *f,
                ));
            }
        }
    }
}

/// A span that is an ordered byte range.
pub open spec fn span_wf(s: Span) -> bool {
    s.start <= s.end
}

/// The source extent a template declaration's diagnostics may point into:
/// its body literal's span, or its identifier's span when it has no
/// literal body.
pub open spec fn template_extent(t: TemplateDecl) -> SpecSpan {
    match t.body {
        None => sspan(t.name_span),
        Some(lit) => sspan(lit.span),
    }
}

/// A diagnostic lies within an extent: same file, inside the byte range.
pub open spec fn within_extent(d: SpecDiag, ext: SpecSpan) -> bool {
    d.span.file == ext.file && ext.start <= d.span.start && d.span.end <= ext.end
}

/// Law: every diagnostic a template declaration's check produces is
/// attributed to that declaration's own source extent, and its span is an
/// ordered byte range.
pub proof fn lemma_template_batch_within(db: Database, t: TemplateDecl)
    requires
        span_wf(t.name_span),
        match t.body {
            Some(lit) => lit_wf(lit),
            None => true,
        },
    ensures
        forall|k: int|
            0 <= k < spec_template_batch(db, t).len() ==> within_extent(
                #[trigger] spec_template_batch(db, t)[k],
                template_extent(t),
            ) && spec_template_batch(db, t)[k].span.start <= spec_template_batch(db, t)[k].span.end,
{
    match t.body {
        None => {}
        Some(lit) => {
            let scopes = seq![spec_template_bindings(t.args@, class_names(db), enum_names(db))];
            let out = scan(lit.value@, 0, scopes, spec_registry_classes(db));
            if !out.parse_failed {
                lemma_scan_findings_bounded(lit.value@, 0, scopes, spec_registry_classes(db));
                crate::template::lemma_byte_at_is_byte_len(lit.value@);
                assert forall|k: int|
                    0 <= k < spec_template_batch(db, t).len() implies within_extent(
                    #[trigger] spec_template_batch(db, t)[k],
                    template_extent(t),
                ) && spec_template_batch(db, t)[k].span.start <= spec_template_batch(
                    db,
                    t,
                )[k].span.end by {
                    assert(spec_template_batch(db, t)[k] == spec_warned(
                        out.findings,
                        lit.span.file@,
                        lit.span.start as int,
                    )[k]);
                    assert(0 <= out.findings[k].start <= out.findings[k].end <= byte_at(
                        lit.value@,
                        lit.value@.len() as int,
                    ));
                }
            }
        }
    }
}

/// Law: every warning a function's prompt check produces is attributed to
/// the prompt literal's own source extent; the errors before them in the
/// function's prompt batch are the unnamed-argument errors.
pub proof fn lemma_function_prompt_findings_within(db: Database, f: FunctionDecl)
    requires
        match f.prompt {
            Some(lit) => lit_wf(lit),
            None => true,
        },
    ensures
        match f.prompt {
            Some(lit) => forall|k: int|
                spec_argname_diags(f.inputs@, 0).len() <= k < spec_prompt_diags(db, f).len()
                    ==> within_extent(#[trigger] spec_prompt_diags(db, f)[k], sspan(lit.span))
                    && spec_prompt_diags(db, f)[k].span.start <= spec_prompt_diags(
                    db,
                    f,
                )[k].span.end,
            None => true,
        },
{
    match f.prompt {
        None => {}
        Some(lit) => {
            let scopes = seq![spec_func_bindings(f.inputs@, 0, class_names(db), enum_names(db))];
            let out = scan(lit.value@, 0, scopes, spec_registry_classes(db));
            let and = spec_argname_diags(f.inputs@, 0);
            if !out.parse_failed {
                lemma_scan_findings_bounded(lit.value@, 0, scopes, spec_registry_classes(db));
                crate::template::lemma_byte_at_is_byte_len(lit.value@);
                let w = spec_warned(out.findings, lit.span.file@, lit.span.start as int);
                assert(spec_prompt_diags(db, f) == and + w);
                assert forall|k: int|
                    and.len() <= k < spec_prompt_diags(db, f).len() implies within_extent(
                    #[trigger] spec_prompt_diags(db, f)[k],
                    sspan(lit.span),
                ) && spec_prompt_diags(db, f)[k].span.start <= spec_prompt_diags(
                    db,
                    f,
                )[k].span.end by {
                    assert(spec_prompt_diags(db, f)[k] == w[k - and.len()]);
                    assert(0 <= out.findings[k - and.len()].start <= out.findings[k
                        - and.len()].end <= byte_at(lit.value@, lit.value@.len() as int));
                }
            }
        }
    }
}

/// Two extents are disjoint when they lie in different files or their
/// byte ranges do not overlap.
pub open spec fn extents_disjoint(x: SpecSpan, y: SpecSpan) -> bool {
    x.file != y.file || x.end < y.start || y.end < x.start
}

/// Law: validating declarations in order, no diagnostic produced while
/// checking one template declaration is ever attributed to another
/// declaration whose source extent is disjoint from it: every diagnostic
/// of the first declaration's batch lies within the first declaration's
/// own extent and outside the second's.  The pass's output is, by
/// `validate`'s contract, exactly the concatenation of such per-declaration
/// batches, so the batches of two declarations never mix.
pub proof fn lemma_template_isolation(db: Database, a: TemplateDecl, b: TemplateDecl)
    requires
        span_wf(a.name_span),
        match a.body {
            Some(lit) => lit_wf(lit),
            None => true,
        },
        extents_disjoint(template_extent(a), template_extent(b)),
    ensures
        forall|k: int|
            0 <= k < spec_template_batch(db, a).len() ==> !within_extent(
                #[trigger] spec_template_batch(db, a)[k],
                template_extent(b),
            ),
{
    lemma_template_batch_within(db, a);
}

/// One validation pass over the whole database: collects the client
/// names, builds the global type registry, then validates every template
/// declaration and every function declaration in order, never aborting on
/// a diagnostic.  The returned diagnostics are exactly the concatenation
/// of every declaration's batch, in declaration order.
pub fn validate(db: &Database) -> (out: Diagnostics)
    requires
        db_wf(*db),
    ensures
        sdiags(out.diags@) == spec_validate(*db),
{
    let mut diag = Diagnostics::new();
    let clients = db.client_name_list();
    let cands = db.type_name_list();
    let mut env = build_env(db);
    proof {
        assert(sdiags(diag.diags@) =~= Seq::<SpecDiag>::empty());
    }
    let mut i: usize = 0;
    while i < db.templates.len()
        invariant
            i <= db.templates@.len(),
            db_wf(*db),
            classes_model(env.classes@) == spec_registry_classes(*db),
            env.scopes@.len() == 0,
            env.errors@.len() == 0,
            names_model(clients@) == client_names(*db),
            names_model(cands@) == class_names(*db) + enum_names(*db),
            sdiags(diag.diags@) + spec_templates_diags(*db, i as int) =~= spec_templates_diags(
                *db,
                0,
            ),
        decreases db.templates@.len() - i,
    {
        let t = &db.templates[i];
        let ghost before = diag.diags@;
        check_template_decl(&mut diag, &mut env, db, t);
        proof {
            assert(sdiags(before) + spec_templates_diags(*db, i as int) =~= sdiags(diag.diags@)
                + spec_templates_diags(*db, i + 1 as int));
        }
        i += 1;
    }
    proof {
        assert(sdiags(diag.diags@) =~= spec_templates_diags(*db, 0));
    }
    let ghost tpart = spec_templates_diags(*db, 0);
    let mut k: usize = 0;
    while k < db.functions.len()
        invariant
            k <= db.functions@.len(),
            db_wf(*db),
            classes_model(env.classes@) == spec_registry_classes(*db),
            env.scopes@.len() == 0,
            env.errors@.len() == 0,
            names_model(clients@) == client_names(*db),
            names_model(cands@) == class_names(*db) + enum_names(*db),
            tpart == spec_templates_diags(*db, 0),
            sdiags(diag.diags@) + spec_functions_diags(*db, k as int) =~= tpart
                + spec_functions_diags(*db, 0),
        decreases db.functions@.len() - k,
    {
        let f = &db.functions[k];
        let ghost before = diag.diags@;
        check_function_decl(&mut diag, &mut env, db, f, &clients, &cands);
        proof {
            assert(sdiags(before) + spec_functions_diags(*db, k as int) =~= sdiags(diag.diags@)
                + spec_functions_diags(*db, k + 1 as int));
        }
        k += 1;
    }
    proof {
        assert(sdiags(diag.diags@) =~= spec_validate(*db));
    }
    diag
}

} // verus!
