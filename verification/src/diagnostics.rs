use vstd::prelude::*;
use vstd::string::StringExecFns;
use crate::text::{join_strings, names_model, spec_join};

verus! {

/// How serious a diagnostic is: errors block the pass, warnings never do.
#[derive(Debug, Clone, Copy, PartialEq, Eq, Structural)]
pub enum Severity {
    Error,
    Warning,
}

/// A byte-exact range in a named source file.
#[derive(Debug)]
pub struct Span {
    pub file: String,
    pub start: usize,
    pub end: usize,
}

impl Span {
    pub fn new(file: String, start: usize, end: usize) -> (r: Span)
        ensures
            sspan(r) == (SpecSpan { file: file@, start: start as int, end: end as int }),
    {
        Span { file, start, end }
    }

    pub fn clone(&self) -> (r: Span)
        ensures
            sspan(r) == sspan(*self),
    {
        Span { file: self.file.clone(), start: self.start, end: self.end }
    }
}

/// The model of a span.
pub struct SpecSpan {
    pub file: Seq<char>,
    pub start: int,
    pub end: int,
}

pub open spec fn sspan(s: Span) -> SpecSpan {
    SpecSpan { file: s.file@, start: s.start as int, end: s.end as int }
}

/// One finding of the validation pass.
#[derive(Debug)]
pub struct Diagnostic {
    pub severity: Severity,
    pub message: String,
    pub span: Span,
}

/// The model of a diagnostic.
pub struct SpecDiag {
    pub severity: Severity,
    pub message: Seq<char>,
    pub span: SpecSpan,
}

pub open spec fn sdiag(d: Diagnostic) -> SpecDiag {
    SpecDiag { severity: d.severity, message: d.message@, span: sspan(d.span) }
}

/// The models of a sequence of diagnostics.
pub open spec fn sdiags(ds: Seq<Diagnostic>) -> Seq<SpecDiag> {
    ds.map_values(|d: Diagnostic| sdiag(d))
}

/// How many of the given diagnostics are errors.
pub open spec fn spec_error_count(ds: Seq<SpecDiag>, i: int) -> nat
    decreases ds.len() - i,
{
    if i < 0 || i >= ds.len() {
        0
    } else {
        (if ds[i].severity is Error {
            1nat
        } else {
            0nat
        }) + spec_error_count(ds, i + 1)
    }
}

/// The message of a failed symbol lookup: it names the kind and the
/// identifier, and enumerates every valid candidate name of that kind.
pub open spec fn spec_not_found_message(
    kind: Seq<char>,
    name: Seq<char>,
    cands: Seq<Seq<char>>,
) -> Seq<char> {
    kind + " `"@ + name + "` does not exist. Valid options: "@ + spec_join(cands, ", "@)
}

/// Accumulates the diagnostics of one validation pass; pushing a
/// diagnostic never aborts the pass.
#[derive(Debug)]
pub struct Diagnostics {
    pub diags: Vec<Diagnostic>,
}

impl Diagnostics {
    pub fn new() -> (r: Diagnostics)
        ensures
            r.diags@.len() == 0,
    {
        Diagnostics { diags: Vec::new() }
    }

    pub fn push_error(&mut self, message: String, span: Span)
        ensures
            final(self).diags@ == old(self).diags@.push(
                Diagnostic { severity: Severity::Error, message: message, span: span },
            ),
    {
        self.diags.push(Diagnostic { severity: Severity::Error, message, span });
    }

    pub fn push_warning(&mut self, message: String, span: Span)
        ensures
            final(self).diags@ == old(self).diags@.push(
                Diagnostic { severity: Severity::Warning, message: message, span: span },
            ),
    {
        self.diags.push(Diagnostic { severity: Severity::Warning, message, span });
    }

    /// Records an error for an identifier that resolved to nothing,
    /// enumerating all valid candidate names of its kind.
    pub fn not_found_error(&mut self, kind: &str, name: &str, span: Span, candidates: &Vec<String>)
        ensures
            sdiags(final(self).diags@) == sdiags(old(self).diags@).push(
                SpecDiag {
                    severity: Severity::Error,
                    message: spec_not_found_message(kind@, name@, names_model(candidates@)),
                    span: sspan(span),
                },
            ),
    {
        let mut message = kind.to_owned();
        message.append(" `");
        message.append(name);
        message.append("` does not exist. Valid options: ");
        let listed = join_strings(candidates, ", ");
        message.append(listed.as_str());
        proof {
            assert(message@ =~= spec_not_found_message(kind@, name@, names_model(candidates@)));
        }
        let ghost before = self.diags@;
        self.diags.push(
            Diagnostic { severity: Severity::Error, message, span },
        );
        proof {
            lemma_sdiags_push(before, self.diags@.last());
            assert(self.diags@.drop_last() =~= before);
            assert(self.diags@ =~= before.push(self.diags@.last()));
        }
    }

    /// How many errors have been recorded.
    pub fn error_count(&self) -> (r: usize)
        ensures
            r == spec_error_count(sdiags(self.diags@), 0),
    {
        let ghost m = sdiags(self.diags@);
        let mut count: usize = 0;
        let total = self.diags.len();
        let mut i: usize = total;
        while i > 0
            invariant
                i <= total,
                total == self.diags@.len(),
                m == sdiags(self.diags@),
                m.len() == self.diags@.len(),
                forall|j: int| 0 <= j < self.diags@.len() ==> m[j] == sdiag(self.diags@[j]),
                count == spec_error_count(m, i as int),
                count <= total - i,
            decreases i,
        {
            i -= 1;
            if matches!(self.diags[i].severity, Severity::Error) {
                count += 1;
            }
        }
        count
    }

    /// The pass succeeds exactly when no error was recorded; warnings
    /// never block success.
    pub fn is_success(&self) -> (r: bool)
        ensures
            r == (spec_error_count(sdiags(self.diags@), 0) == 0),
    {
        self.error_count() == 0
    }
}

/// Mapping diagnostics to their models commutes with push.
pub proof fn lemma_sdiags_push(ds: Seq<Diagnostic>, d: Diagnostic)
    ensures
        sdiags(ds.push(d)) =~= sdiags(ds).push(sdiag(d)),
{
}

} // verus!
