use baml_core::ast::{ClassDecl, ClassField, ClientDecl, ClientRef, Database, EnumDecl, FuncArg,
    FunctionDecl, StringLit, TemplateArg, TemplateDecl, TypeExpr};
use baml_core::diagnostics::{Diagnostics, Severity, Span};
use baml_core::env::{Finding, PredefinedTypes};
use baml_core::field_type::{FieldType, TypeValue};
use baml_core::template::validate_template;
use baml_core::validate::validate;

fn sp(start: usize, end: usize) -> Span {
    Span {
        file: "main.baml".to_string(),
        start,
        end,
    }
}

fn named(n: &str) -> TypeExpr {
    TypeExpr::Named(n.to_string(), sp(1, 2))
}

fn lit(value: &str, start: usize, end: usize) -> StringLit {
    StringLit {
        value: value.to_string(),
        span: sp(start, end),
    }
}

fn empty_db() -> Database {
    Database {
        classes: vec![],
        enums: vec![],
        clients: vec![],
        functions: vec![],
        templates: vec![],
    }
}

fn client(n: &str) -> ClientDecl {
    ClientDecl {
        name: n.to_string(),
        name_span: sp(1, 2),
    }
}

fn plain_function(name: &str) -> FunctionDecl {
    FunctionDecl {
        name: name.to_string(),
        name_span: sp(0, 4),
        span: sp(0, 40),
        inputs: vec![],
        outputs: vec![],
        prompt: None,
        client: None,
    }
}

#[test]
fn function_without_prompt_and_client_yields_exactly_two_errors() {
    let mut f = plain_function("F");
    f.inputs = vec![FuncArg {
        name: Some("text".to_string()),
        ty: named("string"),
        ty_span: sp(5, 9),
    }];
    let mut db = empty_db();
    db.functions = vec![f];
    let out = validate(&db);
    assert_eq!(out.diags.len(), 2);
    assert!(out.diags[0].severity == Severity::Error);
    assert!(out.diags[1].severity == Severity::Error);
    assert_eq!(out.diags[0].message, "Client metadata is missing.".to_string());
    assert_eq!(out.diags[1].message, "Prompt metadata is missing.".to_string());
    assert_eq!(out.diags[0].span.start, 0);
    assert_eq!(out.diags[0].span.end, 40);
}

#[test]
fn argument_validation_completes_despite_missing_metadata() {
    let mut f = plain_function("F");
    f.inputs = vec![FuncArg {
        name: Some("w".to_string()),
        ty: named("Widget"),
        ty_span: sp(5, 9),
    }];
    let mut db = empty_db();
    db.functions = vec![f];
    let out = validate(&db);
    assert_eq!(out.diags.len(), 3);
    assert_eq!(
        out.diags[0].message,
        "Type `Widget` does not exist. Valid options: ".to_string()
    );
    assert_eq!(out.diags[1].message, "Client metadata is missing.".to_string());
    assert_eq!(out.diags[2].message, "Prompt metadata is missing.".to_string());
}

#[test]
fn undeclared_client_lists_all_declared_clients() {
    let mut f = plain_function("F");
    f.client = Some(ClientRef::Named("TurboClient".to_string(), sp(20, 24)));
    f.prompt = Some(lit("hello", 100, 120));
    let mut db = empty_db();
    db.clients = vec![client("FastClient"), client("SmartClient")];
    db.functions = vec![f];
    let out = validate(&db);
    assert_eq!(out.diags.len(), 1);
    assert!(out.diags[0].severity == Severity::Error);
    assert_eq!(
        out.diags[0].message,
        "Client `TurboClient` does not exist. Valid options: FastClient, SmartClient".to_string()
    );
    assert_eq!(out.diags[0].span.start, 20);
    assert_eq!(out.diags[0].span.end, 24);
}

#[test]
fn inline_client_always_resolves() {
    let mut f = plain_function("F");
    f.client = Some(ClientRef::Inline);
    f.prompt = Some(lit("hello", 100, 120));
    let mut db = empty_db();
    db.functions = vec![f];
    let out = validate(&db);
    assert_eq!(out.diags.len(), 0);
}

#[test]
fn unresolved_template_variable_is_one_warning_within_range() {
    let t = TemplateDecl {
        name: "T".to_string(),
        name_span: sp(40, 41),
        args: vec![TemplateArg {
            name: "name".to_string(),
            ty: named("string"),
        }],
        body: Some(lit("hello {{ foo }}", 50, 70)),
    };
    let mut db = empty_db();
    db.templates = vec![t];
    let out = validate(&db);
    assert_eq!(out.diags.len(), 1);
    assert!(out.diags[0].severity == Severity::Warning);
    assert_eq!(
        out.diags[0].message,
        "Variable `foo` does not exist".to_string()
    );
    assert_eq!(out.diags[0].span.file, "main.baml".to_string());
    assert_eq!(out.diags[0].span.start, 59);
    assert_eq!(out.diags[0].span.end, 62);
    assert!(out.diags[0].span.start >= 50);
    assert!(out.diags[0].span.end <= 70);
}

#[test]
fn bound_template_variable_produces_no_finding() {
    let t = TemplateDecl {
        name: "T".to_string(),
        name_span: sp(40, 41),
        args: vec![TemplateArg {
            name: "name".to_string(),
            ty: named("string"),
        }],
        body: Some(lit("hello {{ name }}", 50, 70)),
    };
    let mut db = empty_db();
    db.templates = vec![t];
    let out = validate(&db);
    assert_eq!(out.diags.len(), 0);
}

#[test]
fn findings_of_one_template_never_land_in_the_next() {
    let a = TemplateDecl {
        name: "A".to_string(),
        name_span: sp(8, 9),
        args: vec![],
        body: Some(lit("{{ a }}", 10, 20)),
    };
    let b = TemplateDecl {
        name: "B".to_string(),
        name_span: sp(28, 29),
        args: vec![],
        body: Some(lit("{{ b }}", 30, 40)),
    };
    let mut db = empty_db();
    db.templates = vec![a, b];
    let out = validate(&db);
    assert_eq!(out.diags.len(), 2);
    assert_eq!(out.diags[0].message, "Variable `a` does not exist".to_string());
    assert!(out.diags[0].span.start >= 10 && out.diags[0].span.end <= 20);
    assert!(!(out.diags[0].span.start >= 30 && out.diags[0].span.end <= 40));
    assert_eq!(out.diags[1].message, "Variable `b` does not exist".to_string());
    assert!(out.diags[1].span.start >= 30 && out.diags[1].span.end <= 40);
}

#[test]
fn end_to_end_resume_extraction() {
    let resume = ClassDecl {
        name: "Resume".to_string(),
        name_span: sp(0, 6),
        fields: vec![
            ClassField {
                name: "name".to_string(),
                ty: named("string"),
            },
            ClassField {
                name: "school".to_string(),
                ty: named("string"),
            },
        ],
    };
    let f = FunctionDecl {
        name: "ExtractResume".to_string(),
        name_span: sp(60, 73),
        span: sp(60, 160),
        inputs: vec![FuncArg {
            name: Some("text".to_string()),
            ty: named("string"),
            ty_span: sp(80, 86),
        }],
        outputs: vec![FuncArg {
            name: None,
            ty: named("Resume"),
            ty_span: sp(90, 96),
        }],
        prompt: Some(lit("{{ text }} {{ missing }}", 100, 130)),
        client: Some(ClientRef::Named("TurboClient".to_string(), sp(75, 79))),
    };
    let mut db = empty_db();
    db.classes = vec![resume];
    db.clients = vec![client("FastClient"), client("SmartClient")];
    db.functions = vec![f];
    let out = validate(&db);
    assert_eq!(out.diags.len(), 2);
    assert!(out.diags[0].severity == Severity::Error);
    assert_eq!(
        out.diags[0].message,
        "Client `TurboClient` does not exist. Valid options: FastClient, SmartClient".to_string()
    );
    assert!(out.diags[1].severity == Severity::Warning);
    assert_eq!(
        out.diags[1].message,
        "Variable `missing` does not exist".to_string()
    );
    assert_eq!(out.diags[1].span.start, 114);
    assert_eq!(out.diags[1].span.end, 121);
    assert!(!out.is_success());
}

#[test]
fn nested_type_references_are_resolved_at_any_depth() {
    let mut f = plain_function("F");
    f.client = Some(ClientRef::Inline);
    f.prompt = Some(lit("x", 100, 120));
    f.inputs = vec![FuncArg {
        name: Some("a".to_string()),
        ty: TypeExpr::List(Box::new(TypeExpr::Mapping(
            Box::new(named("string")),
            Box::new(TypeExpr::Optional(Box::new(named("Missing")))),
        ))),
        ty_span: sp(5, 9),
    }];
    let mut db = empty_db();
    db.classes = vec![ClassDecl {
        name: "Foo".to_string(),
        name_span: sp(0, 3),
        fields: vec![],
    }];
    db.enums = vec![EnumDecl {
        name: "Color".to_string(),
        name_span: sp(0, 5),
        variants: vec!["Red".to_string()],
    }];
    db.functions = vec![f];
    let out = validate(&db);
    assert_eq!(out.diags.len(), 1);
    assert_eq!(
        out.diags[0].message,
        "Type `Missing` does not exist. Valid options: Foo, Color".to_string()
    );
}

#[test]
fn missing_argument_name_is_reported_at_the_type_span() {
    let mut f = plain_function("F");
    f.client = Some(ClientRef::Inline);
    f.prompt = Some(lit("", 100, 120));
    f.inputs = vec![FuncArg {
        name: None,
        ty: named("string"),
        ty_span: sp(5, 9),
    }];
    let mut db = empty_db();
    db.functions = vec![f];
    let out = validate(&db);
    assert_eq!(out.diags.len(), 1);
    assert!(out.diags[0].severity == Severity::Error);
    assert_eq!(out.diags[0].message, "Argument name is missing.".to_string());
    assert_eq!(out.diags[0].span.start, 5);
    assert_eq!(out.diags[0].span.end, 9);
}

#[test]
fn template_without_raw_string_body_is_a_hard_error() {
    let t = TemplateDecl {
        name: "T".to_string(),
        name_span: sp(40, 41),
        args: vec![],
        body: None,
    };
    let mut db = empty_db();
    db.templates = vec![t];
    let out = validate(&db);
    assert_eq!(out.diags.len(), 1);
    assert!(out.diags[0].severity == Severity::Error);
    assert_eq!(
        out.diags[0].message,
        "Template string must be a raw string literal like `template_string MyTemplate(myArg: string) #\"\n\n\"#`"
            .to_string()
    );
    assert_eq!(out.diags[0].span.start, 40);
    assert_eq!(out.diags[0].span.end, 41);
}

#[test]
fn template_parse_failures_are_suppressed() {
    let t = TemplateDecl {
        name: "T".to_string(),
        name_span: sp(40, 41),
        args: vec![],
        body: Some(lit("hello {{ 5 }}", 50, 70)),
    };
    let mut db = empty_db();
    db.templates = vec![t];
    let out = validate(&db);
    assert_eq!(out.diags.len(), 0);
    assert!(out.is_success());
}

#[test]
fn field_access_on_declared_class_checks_fields() {
    let foo = ClassDecl {
        name: "Foo".to_string(),
        name_span: sp(0, 3),
        fields: vec![ClassField {
            name: "x".to_string(),
            ty: named("int"),
        }],
    };
    let ok = TemplateDecl {
        name: "T1".to_string(),
        name_span: sp(40, 42),
        args: vec![TemplateArg {
            name: "a".to_string(),
            ty: named("Foo"),
        }],
        body: Some(lit("{{ a.x }}", 50, 70)),
    };
    let bad_field = TemplateDecl {
        name: "T2".to_string(),
        name_span: sp(80, 82),
        args: vec![TemplateArg {
            name: "a".to_string(),
            ty: named("Foo"),
        }],
        body: Some(lit("{{ a.y }}", 90, 110)),
    };
    let through_primitive = TemplateDecl {
        name: "T3".to_string(),
        name_span: sp(120, 122),
        args: vec![TemplateArg {
            name: "a".to_string(),
            ty: named("Foo"),
        }],
        body: Some(lit("{{ a.x.z }}", 130, 150)),
    };
    let unknown_class = TemplateDecl {
        name: "T4".to_string(),
        name_span: sp(160, 162),
        args: vec![TemplateArg {
            name: "b".to_string(),
            ty: named("Bar"),
        }],
        body: Some(lit("{{ b.x }}", 170, 190)),
    };
    let mut db = empty_db();
    db.classes = vec![foo];
    db.templates = vec![ok, bad_field, through_primitive, unknown_class];
    let out = validate(&db);
    assert_eq!(out.diags.len(), 3);
    assert_eq!(
        out.diags[0].message,
        "Type `Foo` has no field `y`".to_string()
    );
    assert_eq!(
        out.diags[1].message,
        "Type `int` has no field `z`".to_string()
    );
    assert_eq!(
        out.diags[2].message,
        "Class `Bar` is not defined".to_string()
    );
    assert!(out.diags.iter().all(|d| d.severity == Severity::Warning));
}

#[test]
fn success_is_exactly_no_errors() {
    let mut d = Diagnostics::new();
    assert!(d.is_success());
    d.push_warning("just a note".to_string(), sp(0, 1));
    assert!(d.is_success());
    assert_eq!(d.error_count(), 0);
    d.push_error("broken".to_string(), sp(0, 1));
    d.push_warning("another note".to_string(), sp(2, 3));
    d.push_error("still broken".to_string(), sp(4, 5));
    assert_eq!(d.error_count(), 2);
    assert!(!d.is_success());
}

#[test]
fn not_found_error_enumerates_candidates() {
    let mut d = Diagnostics::new();
    let cands = vec!["One".to_string(), "Two".to_string(), "Three".to_string()];
    d.not_found_error("Client", "Four", sp(7, 11), &cands);
    assert_eq!(d.diags.len(), 1);
    assert_eq!(
        d.diags[0].message,
        "Client `Four` does not exist. Valid options: One, Two, Three".to_string()
    );
    assert_eq!(d.diags[0].span.start, 7);
}

#[test]
fn inner_scope_shadows_outer_binding() {
    let mut env = PredefinedTypes::new();
    env.start_scope();
    env.add_variable("x".to_string(), FieldType::Primitive(TypeValue::Int));
    env.start_scope();
    env.add_variable("x".to_string(), FieldType::Primitive(TypeValue::String));
    assert!(matches!(
        env.resolve("x"),
        Some(FieldType::Primitive(TypeValue::String))
    ));
    env.end_scope();
    assert!(matches!(
        env.resolve("x"),
        Some(FieldType::Primitive(TypeValue::Int))
    ));
    env.end_scope();
    assert!(env.resolve("x").is_none());
}

#[test]
fn stale_buffer_entries_resurface_until_cleared() {
    let mut env = PredefinedTypes::new();
    env.errors = vec![Finding {
        message: "left over".to_string(),
        start: 0,
        end: 1,
    }];
    let r = validate_template("T", "no references here", &mut env);
    match r {
        Err(e) => {
            assert!(e.parsing_errors.is_none());
            assert_eq!(e.errors.len(), 1);
            assert_eq!(e.errors[0].message, "left over".to_string());
        }
        Ok(_) => panic!("stale findings must surface"),
    }
    env.clear_errors();
    let r2 = validate_template("T", "no references here", &mut env);
    assert!(r2.is_ok());
}

#[test]
fn empty_database_validates_cleanly() {
    let out = validate(&empty_db());
    assert_eq!(out.diags.len(), 0);
    assert!(out.is_success());
}

#[test]
fn later_class_registration_wins_on_equal_names() {
    let first = ClassDecl {
        name: "Foo".to_string(),
        name_span: sp(0, 3),
        fields: vec![ClassField {
            name: "x".to_string(),
            ty: named("int"),
        }],
    };
    let second = ClassDecl {
        name: "Foo".to_string(),
        name_span: sp(10, 13),
        fields: vec![ClassField {
            name: "y".to_string(),
            ty: named("int"),
        }],
    };
    let t = TemplateDecl {
        name: "T".to_string(),
        name_span: sp(40, 41),
        args: vec![TemplateArg {
            name: "a".to_string(),
            ty: named("Foo"),
        }],
        body: Some(lit("{{ a.y }} {{ a.x }}", 50, 80)),
    };
    let mut db = empty_db();
    db.classes = vec![first, second];
    db.templates = vec![t];
    let out = validate(&db);
    assert_eq!(out.diags.len(), 1);
    assert_eq!(
        out.diags[0].message,
        "Type `Foo` has no field `x`".to_string()
    );
}

#[test]
fn several_findings_come_in_body_order() {
    let t = TemplateDecl {
        name: "T".to_string(),
        name_span: sp(40, 41),
        args: vec![],
        body: Some(lit("{{ one }} and {{ two }}", 50, 80)),
    };
    let mut db = empty_db();
    db.templates = vec![t];
    let out = validate(&db);
    assert_eq!(out.diags.len(), 2);
    assert_eq!(out.diags[0].message, "Variable `one` does not exist".to_string());
    assert_eq!(out.diags[1].message, "Variable `two` does not exist".to_string());
    assert!(out.diags[0].span.end <= out.diags[1].span.start);
}
