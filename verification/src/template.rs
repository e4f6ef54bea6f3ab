use vstd::prelude::*;
use vstd::string::StringExecFns;
use crate::env::{Finding, PredefinedTypes, SpecFinding, classes_model, findings_model,
    lookup_binding, lookup_class, resolve_scopes, scopes_model, sfinding};
use crate::field_type::{FieldType, SpecFieldType, sft, spec_display};
use crate::text::{chars_string, str_chars};

verus! {

broadcast use vstd::std_specs::vec::group_vec_axioms;

/// The UTF-8 width in bytes of one character.
pub open spec fn char_width(c: char) -> int {
    if (c as u32) < 0x80 {
        1
    } else if (c as u32) < 0x800 {
        2
    } else if (c as u32) < 0x10000 {
        3
    } else {
        4
    }
}

/// The byte offset of the `i`-th character of `s`: the sum of the UTF-8
/// widths of the characters before it.
pub open spec fn byte_at(s: Seq<char>, i: int) -> int
    decreases i,
{
    if i <= 0 {
        0
    } else {
        byte_at(s, i - 1) + char_width(s[i - 1])
    }
}

/// Byte offsets grow with character positions.
pub proof fn lemma_byte_at_mono(s: Seq<char>, i: int, j: int)
    requires
        0 <= i <= j,
    ensures
        byte_at(s, i) <= byte_at(s, j),
    decreases j,
{
    if i < j {
        lemma_byte_at_mono(s, i, j - 1);
    }
}

/// One character's width agrees with the length of its UTF-8 encoding.
proof fn lemma_char_width_is_encoding_len(c: char)
    ensures
        char_width(c) == vstd::utf8::encode_scalar(c as u32).len(),
{
    vstd::utf8::char_is_scalar(c);
}

/// Appending one character extends the UTF-8 encoding by that
/// character's width.
proof fn lemma_encode_push(t: Seq<char>, c: char)
    ensures
        vstd::utf8::encode_utf8(t.push(c)).len() == vstd::utf8::encode_utf8(t).len()
            + vstd::utf8::encode_scalar(c as u32).len(),
    decreases t.len(),
{
    assert(t.push(c).len() == t.len() + 1);
    assert(vstd::utf8::encode_utf8(t.push(c)) == vstd::utf8::encode_scalar(t.push(c)[0] as u32)
        + vstd::utf8::encode_utf8(t.push(c).drop_first()));
    if t.len() == 0 {
        assert(t.push(c)[0] == c);
        assert(t.push(c).drop_first() =~= Seq::<char>::empty());
        assert(vstd::utf8::encode_utf8(Seq::<char>::empty()).len() == 0);
        assert(vstd::utf8::encode_utf8(t).len() == 0);
    } else {
        assert(t.push(c)[0] == t[0]);
        assert(t.push(c).drop_first() =~= t.drop_first().push(c));
        lemma_encode_push(t.drop_first(), c);
        assert(vstd::utf8::encode_utf8(t) == vstd::utf8::encode_scalar(t[0] as u32)
            + vstd::utf8::encode_utf8(t.drop_first()));
    }
}

/// The byte offset after the first `i` characters is the length of their
/// UTF-8 encoding.
pub proof fn lemma_byte_at_encodes(s: Seq<char>, i: int)
    requires
        0 <= i <= s.len(),
    ensures
        byte_at(s, i) == vstd::utf8::encode_utf8(s.take(i)).len(),
    decreases i,
{
    if i == 0 {
        assert(s.take(0) =~= Seq::<char>::empty());
    } else {
        lemma_byte_at_encodes(s, i - 1);
        assert(s.take(i) =~= s.take(i - 1).push(s[i - 1]));
        lemma_encode_push(s.take(i - 1), s[i - 1]);
        lemma_char_width_is_encoding_len(s[i - 1]);
    }
}

/// The byte offset past the last character is the text's UTF-8 byte
/// length.
pub proof fn lemma_byte_at_is_byte_len(s: Seq<char>)
    ensures
        byte_at(s, s.len() as int) == vstd::utf8::encode_utf8(s).len(),
{
    lemma_byte_at_encodes(s, s.len() as int);
    assert(s.take(s.len() as int) =~= s);
}

/// Template whitespace.
pub open spec fn is_ws(c: char) -> bool {
    c == ' ' || c == '\t' || c == '\n' || c == '\r'
}

/// A character that may start an identifier.
pub open spec fn is_ident_start(c: char) -> bool {
    ((c as u32) >= 97 && (c as u32) <= 122) || ((c as u32) >= 65 && (c as u32) <= 90) || (
    c as u32) == 95
}

/// A character that may continue an identifier.
pub open spec fn is_ident_char(c: char) -> bool {
    is_ident_start(c) || ((c as u32) >= 48 && (c as u32) <= 57)
}

/// The position of the next `{{` at or after `i`, if any.
pub open spec fn find_open(s: Seq<char>, i: int) -> Option<int>
    decreases s.len() - i,
{
    if i < 0 || i + 1 >= s.len() {
        None
    } else if s[i] == '{' && s[i + 1] == '{' {
        Some(i)
    } else {
        find_open(s, i + 1)
    }
}

/// A found opener lies at or after `i` and fits inside `s`.
pub proof fn lemma_find_open_bounds(s: Seq<char>, i: int)
    requires
        0 <= i,
    ensures
        match find_open(s, i) {
            Some(o) => i <= o && o + 1 < s.len() && s[o] == '{' && s[o + 1] == '{',
            None => true,
        },
    decreases s.len() - i,
{
    if !(i + 1 >= s.len()) && !(s[i] == '{' && s[i + 1] == '{') {
        lemma_find_open_bounds(s, i + 1);
    }
}

/// The first position at or after `i` that holds no whitespace.
pub open spec fn skip_ws(s: Seq<char>, i: int) -> int
    decreases s.len() - i,
{
    if 0 <= i < s.len() && is_ws(s[i]) {
        skip_ws(s, i + 1)
    } else {
        i
    }
}

pub proof fn lemma_skip_ws_bounds(s: Seq<char>, i: int)
    requires
        0 <= i <= s.len(),
    ensures
        i <= skip_ws(s, i) <= s.len(),
    decreases s.len() - i,
{
    if i < s.len() && is_ws(s[i]) {
        lemma_skip_ws_bounds(s, i + 1);
    }
}

/// The first position at or after `i` that holds no identifier character.
pub open spec fn ident_end(s: Seq<char>, i: int) -> int
    decreases s.len() - i,
{
    if 0 <= i < s.len() && is_ident_char(s[i]) {
        ident_end(s, i + 1)
    } else {
        i
    }
}

pub proof fn lemma_ident_end_bounds(s: Seq<char>, i: int)
    requires
        0 <= i <= s.len(),
    ensures
        i <= ident_end(s, i) <= s.len(),
    decreases s.len() - i,
{
    if i < s.len() && is_ident_char(s[i]) {
        lemma_ident_end_bounds(s, i + 1);
    }
}

/// The message of a reference to a variable no scope binds.
pub open spec fn msg_unresolved(name: Seq<char>) -> Seq<char> {
    "Variable `"@ + name + "` does not exist"@
}

/// The message of a field access on a class the registry does not hold.
pub open spec fn msg_unknown_class(name: Seq<char>) -> Seq<char> {
    "Class `"@ + name + "` is not defined"@
}

/// The message of a field access that the base type does not offer.
pub open spec fn msg_no_field(shown: Seq<char>, field: Seq<char>) -> Seq<char> {
    "Type `"@ + shown + "` has no field `"@ + field + "`"@
}

/// The state of checking one dotted reference: the type resolved so far,
/// or the first failure's message.
pub enum CheckSt {
    Resolved(SpecFieldType),
    Failed(Seq<char>),
}

/// One field-access step: a failure is kept; a class type steps into the
/// named field; any other type fails.
pub open spec fn spec_step_field(
    classes: Seq<(Seq<char>, Seq<(Seq<char>, SpecFieldType)>)>,
    st: CheckSt,
    field: Seq<char>,
) -> CheckSt {
    match st {
        CheckSt::Failed(m) => CheckSt::Failed(m),
        CheckSt::Resolved(t) => match t {
            SpecFieldType::Class(cn) => match lookup_class(classes, cn) {
                None => CheckSt::Failed(msg_unknown_class(cn)),
                Some(fields) => match lookup_binding(fields, field) {
                    Some(ft) => CheckSt::Resolved(ft),
                    None => CheckSt::Failed(
                        msg_no_field(spec_display(SpecFieldType::Class(cn)), field),
                    ),
                },
            },
            _ => CheckSt::Failed(msg_no_field(spec_display(t), field)),
        },
    }
}

/// The outcome of consuming the dotted tail of a reference.
pub enum PathOut {
    Malformed,
    Done(int, CheckSt),
}

/// Consumes `('.' identifier)*` from position `i`, stepping the check
/// state through each field access; malformed syntax ends the parse.
pub open spec fn spec_path_rest(
    s: Seq<char>,
    i: int,
    st: CheckSt,
    classes: Seq<(Seq<char>, Seq<(Seq<char>, SpecFieldType)>)>,
) -> PathOut
    decreases s.len() - i,
{
    if 0 <= i < s.len() && s[i] == '.' {
        if i + 1 < s.len() && is_ident_start(s[i + 1]) {
            proof {
                lemma_ident_end_bounds(s, i + 1);
            }
            spec_path_rest(
                s,
                ident_end(s, i + 1),
                spec_step_field(classes, st, s.subrange(i + 1, ident_end(s, i + 1))),
                classes,
            )
        } else {
            PathOut::Malformed
        }
    } else {
        PathOut::Done(i, st)
    }
}

/// A completed path ends at or after where it began, inside `s`.
pub proof fn lemma_path_rest_bounds(
    s: Seq<char>,
    i: int,
    st: CheckSt,
    classes: Seq<(Seq<char>, Seq<(Seq<char>, SpecFieldType)>)>,
)
    requires
        0 <= i <= s.len(),
    ensures
        match spec_path_rest(s, i, st, classes) {
            PathOut::Done(pe, _) => i <= pe <= s.len(),
            PathOut::Malformed => true,
        },
    decreases s.len() - i,
{
    if 0 <= i < s.len() && s[i] == '.' {
        if i + 1 < s.len() && is_ident_start(s[i + 1]) {
            lemma_ident_end_bounds(s, i + 1);
            lemma_path_rest_bounds(
                s,
                ident_end(s, i + 1),
                spec_step_field(classes, st, s.subrange(i + 1, ident_end(s, i + 1))),
                classes,
            );
        }
    }
}

/// What scanning a template body produces: whether a parse-level failure
/// was hit (and at which byte), and the semantic findings in order.
pub struct ScanOut {
    pub parse_failed: bool,
    pub fail_at: int,
    pub findings: Seq<SpecFinding>,
}

/// Scans the body from position `i` for `{{ reference }}` expressions,
/// resolving each reference's head in the scopes and stepping through its
/// field accesses; each failed reference yields one finding spanning the
/// reference's bytes.  Any malformed expression is a parse-level failure.
pub open spec fn scan(
    s: Seq<char>,
    i: int,
    scopes: Seq<Seq<(Seq<char>, SpecFieldType)>>,
    classes: Seq<(Seq<char>, Seq<(Seq<char>, SpecFieldType)>)>,
) -> ScanOut
    decreases s.len() - i,
{
    if i < 0 {
        ScanOut { parse_failed: false, fail_at: 0, findings: Seq::empty() }
    } else {
        match find_open(s, i) {
            None => ScanOut { parse_failed: false, fail_at: 0, findings: Seq::empty() },
            Some(o) => {
                let p0 = skip_ws(s, o + 2);
                if !(p0 < s.len() && is_ident_start(s[p0])) {
                    ScanOut { parse_failed: true, fail_at: byte_at(s, o), findings: Seq::empty() }
                } else {
                    let e0 = ident_end(s, p0);
                    let name = s.subrange(p0, e0);
                    let st0 = match resolve_scopes(scopes, name) {
                        Some(t) => CheckSt::Resolved(t),
                        None => CheckSt::Failed(msg_unresolved(name)),
                    };
                    match spec_path_rest(s, e0, st0, classes) {
                        PathOut::Malformed => ScanOut {
                            parse_failed: true,
                            fail_at: byte_at(s, o),
                            findings: Seq::empty(),
                        },
                        PathOut::Done(pe, st) => {
                            let q = skip_ws(s, pe);
                            if q + 1 < s.len() && s[q] == '}' && s[q + 1] == '}' {
                                proof {
                                    lemma_find_open_bounds(s, i);
                                    lemma_skip_ws_bounds(s, o + 2);
                                    lemma_ident_end_bounds(s, p0);
                                    lemma_path_rest_bounds(s, e0, st0, classes);
                                    lemma_skip_ws_bounds(s, pe);
                                }
                                let rest = scan(s, q + 2, scopes, classes);
                                let here: Seq<SpecFinding> = match st {
                                    CheckSt::Failed(m) => seq![
                                        SpecFinding {
                                            message: m,
                                            start: byte_at(s, p0),
                                            end: byte_at(s, pe),
                                        },
                                    ],
                                    CheckSt::Resolved(_) => Seq::empty(),
                                };
                                ScanOut {
                                    parse_failed: rest.parse_failed,
                                    fail_at: rest.fail_at,
                                    findings: here + rest.findings,
                                }
                            } else {
                                ScanOut {
                                    parse_failed: true,
                                    fail_at: byte_at(s, o),
                                    findings: Seq::empty(),
                                }
                            }
                        }
                    }
                }
            }
        }
    }
}

/// Every finding of a scan spans a byte range inside the body.
pub proof fn lemma_scan_findings_bounded(
    s: Seq<char>,
    i: int,
    scopes: Seq<Seq<(Seq<char>, SpecFieldType)>>,
    classes: Seq<(Seq<char>, Seq<(Seq<char>, SpecFieldType)>)>,
)
    requires
        0 <= i,
    ensures
        forall|k: int|
            0 <= k < scan(s, i, scopes, classes).findings.len() ==> {
                let f = #[trigger] scan(s, i, scopes, classes).findings[k];
                0 <= f.start <= f.end <= byte_at(s, s.len() as int)
            },
    decreases s.len() - i,
{
    match find_open(s, i) {
        None => {}
        Some(o) => {
            lemma_find_open_bounds(s, i);
            let p0 = skip_ws(s, o + 2);
            lemma_skip_ws_bounds(s, o + 2);
            if p0 < s.len() && is_ident_start(s[p0]) {
                let e0 = ident_end(s, p0);
                lemma_ident_end_bounds(s, p0);
                let name = s.subrange(p0, e0);
                let st0 = match resolve_scopes(scopes, name) {
                    Some(t) => CheckSt::Resolved(t),
                    None => CheckSt::Failed(msg_unresolved(name)),
                };
                match spec_path_rest(s, e0, st0, classes) {
                    PathOut::Malformed => {}
                    PathOut::Done(pe, st) => {
                        lemma_path_rest_bounds(s, e0, st0, classes);
                        let q = skip_ws(s, pe);
                        lemma_skip_ws_bounds(s, pe);
                        if q + 1 < s.len() && s[q] == '}' && s[q + 1] == '}' {
                            lemma_scan_findings_bounded(s, q + 2, scopes, classes);
                            lemma_byte_at_mono(s, 0, p0);
                            lemma_byte_at_mono(s, p0, pe);
                            lemma_byte_at_mono(s, pe, s.len() as int);
                            let rest = scan(s, q + 2, scopes, classes);
                            let here: Seq<SpecFinding> = match st {
                                CheckSt::Failed(m) => seq![
                                    SpecFinding {
                                        message: m,
                                        start: byte_at(s, p0),
                                        end: byte_at(s, pe),
                                    },
                                ],
                                CheckSt::Resolved(_) => Seq::empty(),
                            };
                            assert(scan(s, i, scopes, classes).findings == here + rest.findings);
                            assert forall|k: int|
                                0 <= k < scan(s, i, scopes, classes).findings.len() implies {
                                let f = #[trigger] scan(s, i, scopes, classes).findings[k];
                                0 <= f.start <= f.end <= byte_at(s, s.len() as int)
                            } by {
                                if k >= here.len() {
                                    assert(scan(s, i, scopes, classes).findings[k]
                                        == rest.findings[k - here.len()]);
                                } else {
                                    assert(scan(s, i, scopes, classes).findings[k] == here[0]);
                                }
                            }
                        }
                    }
                }
            }
        }
    }
}

/// The UTF-8 width in bytes of one character.
fn char_width_of(c: char) -> (w: usize)
    ensures
        w as int == char_width(c),
{
    let u = c as u32;
    if u < 0x80 {
        1
    } else if u < 0x800 {
        2
    } else if u < 0x10000 {
        3
    } else {
        4
    }
}

fn is_ws_exec(c: char) -> (r: bool)
    ensures
        r == is_ws(c),
{
    c == ' ' || c == '\t' || c == '\n' || c == '\r'
}

fn is_ident_start_exec(c: char) -> (r: bool)
    ensures
        r == is_ident_start(c),
{
    let u = c as u32;
    (u >= 97 && u <= 122) || (u >= 65 && u <= 90) || u == 95
}

fn is_ident_char_exec(c: char) -> (r: bool)
    ensures
        r == is_ident_char(c),
{
    let u = c as u32;
    (u >= 97 && u <= 122) || (u >= 65 && u <= 90) || u == 95 || (u >= 48 && u <= 57)
}

/// Finds the next `{{` at or after `i`, with its byte offset.
fn find_open_from(v: &Vec<char>, i0: usize, b0: usize) -> (r: Option<(usize, usize)>)
    requires
        i0 <= v@.len(),
        b0 as int == byte_at(v@, i0 as int),
        byte_at(v@, v@.len() as int) <= usize::MAX,
    ensures
        match r {
            None => find_open(v@, i0 as int) is None,
            Some((o, bo)) => find_open(v@, i0 as int) == Some(o as int) && bo as int == byte_at(
                v@,
                o as int,
            ) && o + 1 < v@.len(),
        },
{
    let mut i = i0;
    let mut b = b0;
    loop
        invariant
            i0 <= i <= v@.len(),
            b as int == byte_at(v@, i as int),
            byte_at(v@, v@.len() as int) <= usize::MAX,
            find_open(v@, i0 as int) == find_open(v@, i as int),
        decreases v@.len() - i,
    {
        if v.len() - i < 2 {
            return None;
        }
        if v[i] == '{' && v[i + 1] == '{' {
            return Some((i, b));
        }
        proof {
            lemma_byte_at_mono(v@, i + 1, v@.len() as int);
        }
        b = b + char_width_of(v[i]);
        i = i + 1;
    }
}

/// Skips whitespace from `i`, with the byte offset of the stop position.
fn skip_ws_from(v: &Vec<char>, i0: usize, b0: usize) -> (r: (usize, usize))
    requires
        i0 <= v@.len(),
        b0 as int == byte_at(v@, i0 as int),
        byte_at(v@, v@.len() as int) <= usize::MAX,
    ensures
        r.0 as int == skip_ws(v@, i0 as int),
        r.1 as int == byte_at(v@, r.0 as int),
        r.0 <= v@.len(),
{
    let mut i = i0;
    let mut b = b0;
    loop
        invariant
            i0 <= i <= v@.len(),
            b as int == byte_at(v@, i as int),
            byte_at(v@, v@.len() as int) <= usize::MAX,
            skip_ws(v@, i0 as int) == skip_ws(v@, i as int),
        decreases v@.len() - i,
    {
        if i >= v.len() {
            return (i, b);
        }
        if !is_ws_exec(v[i]) {
            return (i, b);
        }
        proof {
            lemma_byte_at_mono(v@, i + 1, v@.len() as int);
        }
        b = b + char_width_of(v[i]);
        i = i + 1;
    }
}

/// Consumes identifier characters from `i`, with the byte offset of the
/// stop position.
fn ident_end_from(v: &Vec<char>, i0: usize, b0: usize) -> (r: (usize, usize))
    requires
        i0 <= v@.len(),
        b0 as int == byte_at(v@, i0 as int),
        byte_at(v@, v@.len() as int) <= usize::MAX,
    ensures
        r.0 as int == ident_end(v@, i0 as int),
        r.1 as int == byte_at(v@, r.0 as int),
        r.0 <= v@.len(),
    decreases v@.len() - i0,
{
    let mut i = i0;
    let mut b = b0;
    loop
        invariant
            i0 <= i <= v@.len(),
            b as int == byte_at(v@, i as int),
            byte_at(v@, v@.len() as int) <= usize::MAX,
            ident_end(v@, i0 as int) == ident_end(v@, i as int),
        decreases v@.len() - i,
    {
        if i >= v.len() {
            return (i, b);
        }
        if !is_ident_char_exec(v[i]) {
            return (i, b);
        }
        proof {
            lemma_byte_at_mono(v@, i + 1, v@.len() as int);
        }
        b = b + char_width_of(v[i]);
        i = i + 1;
    }
}

/// The running state of checking one dotted reference.
enum StepSt<'a> {
    Resolved(&'a FieldType),
    Failed(String),
}

/// The model of a running check state.
spec fn st_model<'a>(st: StepSt<'a>) -> CheckSt {
    match st {
        StepSt::Resolved(t) => CheckSt::Resolved(sft(*t)),
        StepSt::Failed(m) => CheckSt::Failed(m@),
    }
}

fn build_unresolved(name: &str) -> (r: String)
    ensures
        r@ == msg_unresolved(name@),
{
    let mut m = "Variable `".to_owned();
    m.append(name);
    m.append("` does not exist");
    proof {
        assert(m@ =~= msg_unresolved(name@));
    }
    m
}

fn build_unknown_class(name: &str) -> (r: String)
    ensures
        r@ == msg_unknown_class(name@),
{
    let mut m = "Class `".to_owned();
    m.append(name);
    m.append("` is not defined");
    proof {
        assert(m@ =~= msg_unknown_class(name@));
    }
    m
}

fn build_no_field(shown: &str, field: &str) -> (r: String)
    ensures
        r@ == msg_no_field(shown@, field@),
{
    let mut m = "Type `".to_owned();
    m.append(shown);
    m.append("` has no field `");
    m.append(field);
    m.append("`");
    proof {
        assert(m@ =~= msg_no_field(shown@, field@));
    }
    m
}

/// One field-access step against the registered classes.
fn step_field_exec<'a>(env: &'a PredefinedTypes, st: StepSt<'a>, seg: &str) -> (r: StepSt<'a>)
    ensures
        st_model(r) == spec_step_field(classes_model(env.classes@), st_model(st), seg@),
{
    match st {
        StepSt::Failed(m) => StepSt::Failed(m),
        StepSt::Resolved(t) => {
            match t {
                FieldType::Class(cn) => {
                    match env.find_class_fields(cn.as_str()) {
                        None => StepSt::Failed(build_unknown_class(cn.as_str())),
                        Some(fields) => {
                            match PredefinedTypes::field_in(fields, seg) {
                                Some(ft) => StepSt::Resolved(ft),
                                None => {
                                    let shown = t.display();
                                    StepSt::Failed(build_no_field(shown.as_str(), seg))
                                }
                            }
                        }
                    }
                }
                _ => {
                    let shown = t.display();
                    StepSt::Failed(build_no_field(shown.as_str(), seg))
                }
            }
        }
    }
}

/// Consumes the dotted tail of a reference, stepping the check state.
fn path_rest_exec<'a>(
    v: &Vec<char>,
    i: usize,
    b: usize,
    st: StepSt<'a>,
    env: &'a PredefinedTypes,
) -> (r: Option<(usize, usize, StepSt<'a>)>)
    requires
        i <= v@.len(),
        b as int == byte_at(v@, i as int),
        byte_at(v@, v@.len() as int) <= usize::MAX,
    ensures
        match r {
            None => spec_path_rest(v@, i as int, st_model(st), classes_model(env.classes@))
                is Malformed,
            Some((pe, be, st2)) => spec_path_rest(
                v@,
                i as int,
                st_model(st),
                classes_model(env.classes@),
            ) == PathOut::Done(pe as int, st_model(st2)) && be as int == byte_at(v@, pe as int)
                && pe <= v@.len(),
        },
    decreases v@.len() - i,
{
    if i < v.len() && v[i] == '.' {
        if i + 1 < v.len() && is_ident_start_exec(v[i + 1]) {
            proof {
                assert(byte_at(v@, i + 1 as int) == b + 1);
                lemma_byte_at_mono(v@, i + 1, v@.len() as int);
                assert(ident_end(v@, i + 1 as int) == ident_end(v@, i + 2 as int));
                lemma_ident_end_bounds(v@, i + 2 as int);
            }
            let (e, be) = ident_end_from(v, i + 1, b + 1);
            let seg = chars_string(v, i + 1, e);
            let st2 = step_field_exec(env, st, seg.as_str());
            path_rest_exec(v, e, be, st2, env)
        } else {
            None
        }
    } else {
        Some((i, b, st))
    }
}

/// Scans the body from position `i`, appending each failed reference's
/// finding to `acc`; returns whether a parse-level failure was hit, and
/// at which byte.
fn scan_acc(
    v: &Vec<char>,
    i: usize,
    b: usize,
    env: &PredefinedTypes,
    acc: &mut Vec<Finding>,
) -> (r: (bool, usize))
    requires
        i <= v@.len(),
        b as int == byte_at(v@, i as int),
        byte_at(v@, v@.len() as int) <= usize::MAX,
    ensures
        ({
            let out = scan(v@, i as int, scopes_model(env.scopes@), classes_model(env.classes@));
            &&& r.0 == out.parse_failed
            &&& (r.0 ==> r.1 as int == out.fail_at)
            &&& (!r.0 ==> findings_model(final(acc)@) == findings_model(old(acc)@) + out.findings)
        }),
    decreases v@.len() - i,
{
    let ghost sm = scopes_model(env.scopes@);
    let ghost cm = classes_model(env.classes@);
    let vn = v.len();
    match find_open_from(v, i, b) {
        None => {
            proof {
                assert(findings_model(acc@) =~= findings_model(acc@) + Seq::<
                    SpecFinding,
                >::empty());
            }
            (false, 0)
        }
        Some((o, bo)) => {
            proof {
                lemma_find_open_bounds(v@, i as int);
                assert(o + 2 <= vn);
                assert(byte_at(v@, o + 1 as int) == bo + 1);
                assert(byte_at(v@, o + 2 as int) == bo + 2);
                lemma_byte_at_mono(v@, o + 2, v@.len() as int);
            }
            let (p0, bp0) = skip_ws_from(v, o + 2, bo + 2);
            if !(p0 < v.len() && is_ident_start_exec(v[p0])) {
                (true, bo)
            } else {
                proof {
                    lemma_ident_end_bounds(v@, p0 as int);
                }
                let (e0, be0) = ident_end_from(v, p0, bp0);
                let name = chars_string(v, p0, e0);
                let st0 = match env.resolve(name.as_str()) {
                    Some(t) => StepSt::Resolved(t),
                    None => StepSt::Failed(build_unresolved(name.as_str())),
                };
                let ghost sst0 = match resolve_scopes(sm, v@.subrange(p0 as int, e0 as int)) {
                    Some(t) => CheckSt::Resolved(t),
                    None => CheckSt::Failed(msg_unresolved(v@.subrange(p0 as int, e0 as int))),
                };
                proof {
                    assert(st_model(st0) == sst0);
                }
                match path_rest_exec(v, e0, be0, st0, env) {
                    None => (true, bo),
                    Some((pe, bpe, st)) => {
                        let (q, bq) = skip_ws_from(v, pe, bpe);
                        if vn - q >= 2 && v[q] == '}' && v[q + 1] == '}' {
                            let ghost before = acc@;
                            let ghost here: Seq<SpecFinding> = match st_model(st) {
                                CheckSt::Failed(m) => seq![
                                    SpecFinding {
                                        message: m,
                                        start: byte_at(v@, p0 as int),
                                        end: byte_at(v@, pe as int),
                                    },
                                ],
                                CheckSt::Resolved(_) => Seq::empty(),
                            };
                            match st {
                                StepSt::Failed(m) => {
                                    acc.push(Finding { message: m, start: bp0, end: bpe });
                                }
                                StepSt::Resolved(_) => {}
                            }
                            proof {
                                assert(findings_model(acc@) =~= findings_model(before) + here);
                                assert(byte_at(v@, q + 1 as int) == bq + 1);
                                assert(byte_at(v@, q + 2 as int) == bq + 2);
                                lemma_byte_at_mono(v@, q + 2, v@.len() as int);
                                lemma_skip_ws_bounds(v@, o + 2 as int);
                                lemma_path_rest_bounds(v@, e0 as int, sst0, cm);
                                lemma_skip_ws_bounds(v@, pe as int);
                                assert(q + 2 > i);
                            }
                            let ghost mid = acc@;
                            let rest = scan_acc(v, q + 2, bq + 2, env, acc);
                            proof {
                                let out = scan(v@, i as int, sm, cm);
                                let rout = scan(v@, q + 2 as int, sm, cm);
                                assert(out.parse_failed == rout.parse_failed && out.fail_at
                                    == rout.fail_at && out.findings == here + rout.findings);
                                if !rest.0 {
                                    assert(findings_model(acc@) =~= findings_model(before)
                                        + out.findings);
                                }
                            }
                            rest
                        } else {
                            (true, bo)
                        }
                    }
                }
            }
        }
    }
}

/// A parse-level failure, and the semantic findings, of one template
/// check; on a parse-level failure the findings are not meaningful.
#[derive(Debug)]
pub struct TemplateError {
    pub parsing_errors: Option<Finding>,
    pub errors: Vec<Finding>,
}

fn clone_finding(f: &Finding) -> (r: Finding)
    ensures
        sfinding(r) == sfinding(*f),
{
    Finding { message: f.message.clone(), start: f.start, end: f.end }
}

fn clone_findings(v: &Vec<Finding>) -> (r: Vec<Finding>)
    ensures
        findings_model(r@) == findings_model(v@),
{
    let mut r: Vec<Finding> = Vec::new();
    let mut i: usize = 0;
    while i < v.len()
        invariant
            i <= v@.len(),
            r@.len() == i,
            forall|j: int| 0 <= j < i ==> sfinding(r@[j]) == sfinding(v@[j]),
        decreases v@.len() - i,
    {
        r.push(clone_finding(&v[i]));
        i += 1;
    }
    proof {
        assert(findings_model(r@) =~= findings_model(v@));
    }
    r
}

/// Type-checks the references inside one template body against the
/// environment's scopes and registered classes.  Parse-level failures are
/// reported apart from semantic findings; the findings are appended to
/// the environment's transient buffer, and the returned list holds the
/// whole buffer, stale entries included.  `Ok` means no parse-level
/// failure and an empty buffer.
pub fn validate_template(name: &str, body: &str, env: &mut PredefinedTypes) -> (r: Result<
    (),
    TemplateError,
>)
    requires
        byte_at(body@, body@.len() as int) <= usize::MAX,
    ensures
        final(env).classes == old(env).classes,
        final(env).templates == old(env).templates,
        final(env).scopes == old(env).scopes,
        ({
            let out = scan(
                body@,
                0,
                scopes_model(old(env).scopes@),
                classes_model(old(env).classes@),
            );
            &&& (out.parse_failed ==> final(env).errors == old(env).errors && match r {
                Ok(_) => false,
                Err(e) => e.parsing_errors is Some && findings_model(e.errors@) == findings_model(
                    old(env).errors@,
                ),
            })
            &&& (!out.parse_failed ==> findings_model(final(env).errors@) == findings_model(
                old(env).errors@,
            ) + out.findings && match r {
                Ok(_) => final(env).errors@.len() == 0,
                Err(e) => e.parsing_errors is None && final(env).errors@.len() > 0
                    && findings_model(e.errors@) == findings_model(final(env).errors@),
            })
        }),
{
    let chars = str_chars(body);
    let mut local: Vec<Finding> = Vec::new();
    let (parse_failed, fail_at) = scan_acc(&chars, 0, 0, env, &mut local);
    if parse_failed {
        let pf = Finding {
            message: "Malformed template expression".to_owned(),
            start: fail_at,
            end: fail_at,
        };
        Err(TemplateError { parsing_errors: Some(pf), errors: clone_findings(&env.errors) })
    } else {
        let ghost base = env.errors@;
        let mut i: usize = 0;
        while i < local.len()
            invariant
                i <= local@.len(),
                env.errors@.len() == base.len() + i,
                forall|j: int| 0 <= j < base.len() ==> env.errors@[j] == base[j],
                forall|j: int|
                    0 <= j < i ==> sfinding(env.errors@[base.len() + j]) == sfinding(local@[j]),
                env.classes == old(env).classes,
                env.templates == old(env).templates,
                env.scopes == old(env).scopes,
            decreases local@.len() - i,
        {
            env.errors.push(clone_finding(&local[i]));
            i += 1;
        }
        proof {
            assert(findings_model(env.errors@) =~= findings_model(base) + findings_model(local@));
        }
        if env.errors.len() == 0 {
            Ok(())
        } else {
            Err(TemplateError { parsing_errors: None, errors: clone_findings(&env.errors) })
        }
    }
}

} // verus!
