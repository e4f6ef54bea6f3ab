use vstd::prelude::*;
use crate::diagnostics::Span;

verus! {

/// A syntax-level type expression, as the parse stage hands it over.
/// A bare name resolves to a primitive, a class or an enum; the span is
/// the name's source range.
#[derive(Debug)]
pub enum TypeExpr {
    Named(String, Span),
    List(Box<TypeExpr>),
    Mapping(Box<TypeExpr>, Box<TypeExpr>),
    Union(Vec<TypeExpr>),
    Tuple(Vec<TypeExpr>),
    Optional(Box<TypeExpr>),
}

/// A literal raw string together with the source range of its text.
#[derive(Debug)]
pub struct StringLit {
    pub value: String,
    pub span: Span,
}

/// One field of a class declaration.
#[derive(Debug)]
pub struct ClassField {
    pub name: String,
    pub ty: TypeExpr,
}

/// A class declaration.
#[derive(Debug)]
pub struct ClassDecl {
    pub name: String,
    pub name_span: Span,
    pub fields: Vec<ClassField>,
}

/// An enum declaration.
#[derive(Debug)]
pub struct EnumDecl {
    pub name: String,
    pub name_span: Span,
    pub variants: Vec<String>,
}

/// A client declaration.
#[derive(Debug)]
pub struct ClientDecl {
    pub name: String,
    pub name_span: Span,
}

/// One declared input of a template string; template arguments always
/// carry a name.
#[derive(Debug)]
pub struct TemplateArg {
    pub name: String,
    pub ty: TypeExpr,
}

/// A template-string declaration; `body` is `None` when the declaration's
/// body is not a literal raw string.
#[derive(Debug)]
pub struct TemplateDecl {
    pub name: String,
    pub name_span: Span,
    pub args: Vec<TemplateArg>,
    pub body: Option<StringLit>,
}

/// One argument of a function; the parser may leave the name missing.
#[derive(Debug)]
pub struct FuncArg {
    pub name: Option<String>,
    pub ty: TypeExpr,
    pub ty_span: Span,
}

/// How a function names its client: an inline specification always
/// resolves; a name must resolve against the declared clients.
#[derive(Debug)]
pub enum ClientRef {
    Inline,
    Named(String, Span),
}

/// A function declaration with its metadata.
#[derive(Debug)]
pub struct FunctionDecl {
    pub name: String,
    pub name_span: Span,
    pub span: Span,
    pub inputs: Vec<FuncArg>,
    pub outputs: Vec<FuncArg>,
    pub prompt: Option<StringLit>,
    pub client: Option<ClientRef>,
}

/// The read-only symbol database produced by the parse stage.
#[derive(Debug)]
pub struct Database {
    pub classes: Vec<ClassDecl>,
    pub enums: Vec<EnumDecl>,
    pub clients: Vec<ClientDecl>,
    pub functions: Vec<FunctionDecl>,
    pub templates: Vec<TemplateDecl>,
}

/// The declared class names, in declaration order.
pub open spec fn class_names(db: Database) -> Seq<Seq<char>> {
    db.classes@.map_values(|c: ClassDecl| c.name@)
}

/// The declared enum names, in declaration order.
pub open spec fn enum_names(db: Database) -> Seq<Seq<char>> {
    db.enums@.map_values(|e: EnumDecl| e.name@)
}

/// The declared client names, in declaration order.
pub open spec fn client_names(db: Database) -> Seq<Seq<char>> {
    db.clients@.map_values(|c: ClientDecl| c.name@)
}

impl Database {
    /// Whether a class of the given name is declared.
    pub fn has_class(&self, name: &str) -> (r: bool)
        ensures
            r == class_names(*self).contains(name@),
    {
        let mut i: usize = 0;
        while i < self.classes.len()
            invariant
                i <= self.classes@.len(),
                forall|j: int| 0 <= j < i ==> class_names(*self)[j] != name@,
            decreases self.classes@.len() - i,
        {
            if crate::text::str_eq(self.classes[i].name.as_str(), name) {
                proof {
                    assert(class_names(*self)[i as int] == name@);
                }
                return true;
            }
            i += 1;
        }
        false
    }

    /// Whether an enum of the given name is declared.
    pub fn has_enum(&self, name: &str) -> (r: bool)
        ensures
            r == enum_names(*self).contains(name@),
    {
        let mut i: usize = 0;
        while i < self.enums.len()
            invariant
                i <= self.enums@.len(),
                forall|j: int| 0 <= j < i ==> enum_names(*self)[j] != name@,
            decreases self.enums@.len() - i,
        {
            if crate::text::str_eq(self.enums[i].name.as_str(), name) {
                proof {
                    assert(enum_names(*self)[i as int] == name@);
                }
                return true;
            }
            i += 1;
        }
        false
    }

    /// Whether a client of the given name is declared.
    pub fn has_client(&self, name: &str) -> (r: bool)
        ensures
            r == client_names(*self).contains(name@),
    {
        let mut i: usize = 0;
        while i < self.clients.len()
            invariant
                i <= self.clients@.len(),
                forall|j: int| 0 <= j < i ==> client_names(*self)[j] != name@,
            decreases self.clients@.len() - i,
        {
            if crate::text::str_eq(self.clients[i].name.as_str(), name) {
                proof {
                    assert(client_names(*self)[i as int] == name@);
                }
                return true;
            }
            i += 1;
        }
        false
    }

    /// The declared client names, cloned in declaration order.
    pub fn client_name_list(&self) -> (r: Vec<String>)
        ensures
            crate::text::names_model(r@) == client_names(*self),
    {
        let mut r: Vec<String> = Vec::new();
        let mut i: usize = 0;
        while i < self.clients.len()
            invariant
                i <= self.clients@.len(),
                r@.len() == i,
                forall|j: int| 0 <= j < i ==> r@[j]@ == client_names(*self)[j],
            decreases self.clients@.len() - i,
        {
            r.push(self.clients[i].name.clone());
            i += 1;
        }
        proof {
            assert(crate::text::names_model(r@) =~= client_names(*self));
        }
        r
    }

    /// The declared class names followed by the declared enum names,
    /// cloned in declaration order: the candidates a bare type name may
    /// resolve to.
    pub fn type_name_list(&self) -> (r: Vec<String>)
        ensures
            crate::text::names_model(r@) == class_names(*self) + enum_names(*self),
    {
        let mut r: Vec<String> = Vec::new();
        let mut i: usize = 0;
        while i < self.classes.len()
            invariant
                i <= self.classes@.len(),
                r@.len() == i,
                forall|j: int| 0 <= j < i ==> r@[j]@ == class_names(*self)[j],
            decreases self.classes@.len() - i,
        {
            r.push(self.classes[i].name.clone());
            i += 1;
        }
        let n = r.len();
        let mut k: usize = 0;
        while k < self.enums.len()
            invariant
                n == self.classes@.len(),
                k <= self.enums@.len(),
                r@.len() == n + k,
                forall|j: int| 0 <= j < n ==> r@[j]@ == class_names(*self)[j],
                forall|j: int| 0 <= j < k ==> r@[n + j]@ == enum_names(*self)[j],
            decreases self.enums@.len() - k,
        {
            r.push(self.enums[k].name.clone());
            k += 1;
        }
        proof {
            assert(crate::text::names_model(r@) =~= class_names(*self) + enum_names(*self));
        }
        r
    }
}

} // verus!
