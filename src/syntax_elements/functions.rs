//! Functions: the signature with its modifiers, and the body decomposed
//! into statements.

use vstd::prelude::*;
use crate::pattern::{find_all, found, found_views, group_or_empty, group_string, Found, FoundView};
use crate::syntax_elements::statements;
use crate::syntax_elements::statements::{
    contents, decomposes, generic_statement_is_whole_body, statement_views, ARSStatement,
    StatementKind,
};
use crate::balancer::{fn_body_text, function_body};
use crate::text::{concat_all, joined, lemma_concat_step, lemma_concat_whole, line_list, push_joined, split_lines, texts, trim, trimmed};

verus! {

/// A function: its signature and the statements of its body.
#[derive(Debug)]
pub struct ARSFunction {
    /// Attributes, modifiers, name, generics, parameters and return type.
    pub signature: String,
    pub body: Vec<ARSStatement>,
}

/// Attributes, then visibility and `const`, `async` and `unsafe` in any
/// order, `fn`, name, generics, parameters (one level of nested parentheses,
/// over any number of lines) and the return type up to the body or a `;`.
pub const FUNCTION_PATTERN: &'static str =
    r"(?m)(?:(#\[.*?\]\s*)*)?(\b(?:pub(?:\([^)]*\))?\s*)?(?:(?:const|async|unsafe)\s+)*fn\s+[\w\d_]+\s*(?s:<.*?>)?\s*\((?:[^()]|\([^()]*\))*\)\s*(?:->\s*[^{;]+)?)";

/// The match is kept only where a closed body follows it.
pub open spec fn has_fn_body(m: FoundView) -> bool {
    fn_body_text(m.rest) is Some
}

/// `f` is the function that a match `m` of `FUNCTION_PATTERN` with a body
/// describes: the whole match trimmed, and the statements of the trimmed
/// body.
pub open spec fn function_fits(f: ARSFunction, m: FoundView) -> bool {
    &&& f.signature@ == trim(group_or_empty(m, 0))
    &&& fn_body_text(m.rest) is Some
    &&& decomposes(fn_body_text(m.rest)->Some_0, statement_views(f.body@))
}

/// The function that one match describes, or `None` where no body follows.
pub fn function_from_match(m: &Found) -> (r: Option<ARSFunction>)
    ensures
        match r {
            Some(f) => function_fits(f, m@),
            None => !has_fn_body(m@),
        },
{
    match function_body(m.rest.as_str()) {
        Some(body) => {
            let signature = trimmed(group_string(m, 0).as_str());
            Some(ARSFunction { signature, body: statements::extract_ars_statements(body.as_str()) })
        },
        None => None,
    }
}

/// The matches whose body closes, in order.
pub open spec fn with_fn_body(ms: Seq<FoundView>) -> Seq<FoundView>
    decreases ms.len(),
{
    if ms.len() == 0 {
        Seq::empty()
    } else if has_fn_body(ms.last()) {
        with_fn_body(ms.drop_last()).push(ms.last())
    } else {
        with_fn_body(ms.drop_last())
    }
}

pub open spec fn functions_fit(r: Seq<ARSFunction>, ms: Seq<FoundView>) -> bool {
    &&& r.len() == with_fn_body(ms).len()
    &&& forall|i: int| 0 <= i < r.len() ==> function_fits(r[i], with_fn_body(ms)[i])
}

/// Every function of `source` whose body closes, in order of appearance.
pub fn extract_ars_functions(source: &str) -> (r: Vec<ARSFunction>)
    ensures
        functions_fit(r@, found(FUNCTION_PATTERN@, source@)),
{
    let ms = find_all(FUNCTION_PATTERN, source);
    let mut r: Vec<ARSFunction> = Vec::new();
    assert(found_views(ms@).take(0) =~= Seq::<FoundView>::empty());
    for k in 0..ms.len()
        invariant
            found_views(ms@) == found(FUNCTION_PATTERN@, source@),
            functions_fit(r@, found_views(ms@).take(k as int)),
    {
        let ghost mv = found_views(ms@);
        assert(mv.take(k + 1).drop_last() =~= mv.take(k as int));
        assert(mv[k as int] == ms@[k as int]@);
        match function_from_match(&ms[k]) {
            Some(f) => r.push(f),
            None => {},
        }
        assert(functions_fit(r@, mv.take(k + 1)));
    }
    assert(found_views(ms@).take(ms.len() as int) =~= found_views(ms@));
    r
}

/// Each line indented by four spaces.
pub open spec fn indented(v: Seq<Seq<char>>) -> Seq<Seq<char>> {
    v.map_values(|l: Seq<char>| "    "@ + l)
}

/// The source text of one function: the signature, then the statements'
/// texts with every line indented, between braces.
pub open spec fn function_text(f: ARSFunction) -> Seq<char> {
    let body = joined(contents(statement_views(f.body@)), "\n"@);
    f.signature@ + " {\n"@ + joined(indented(line_list(body)), "\n"@) + "\n}\n\n"@
}

fn push_function(out: &mut String, f: &ARSFunction)
    ensures
        final(out)@ == old(out)@ + function_text(*f),
{
    let ghost o0 = out@;
    let body = statements::reconstruct(f.body.as_slice());
    let lines = split_lines(body.as_str());
    let mut parts: Vec<String> = Vec::new();
    for k in 0..lines.len()
        invariant
            texts(parts@) == indented(texts(lines@).take(k as int)),
    {
        let mut t = String::new();
        t.append("    ");
        t.append(lines[k].as_str());
        let ghost prev = parts@;
        parts.push(t);
        assert(texts(parts@) =~= texts(prev).push(t@));
        assert(texts(parts@) =~= indented(texts(lines@).take(k + 1)));
    }
    assert(texts(lines@).take(lines.len() as int) =~= texts(lines@));
    out.append(f.signature.as_str());
    out.append(" {\n");
    push_joined(out, &parts, "\n");
    out.append("\n}\n\n");
    assert(out@ =~= o0 + function_text(*f));
}

/// The source text of the functions, one after another.
pub fn reconstruct(ars_functions: &[ARSFunction]) -> (r: String)
    ensures
        r@ == concat_all(ars_functions@, |f: ARSFunction| function_text(f)),
{
    let mut out = String::new();
    proof {
        lemma_concat_whole(ars_functions@, |f: ARSFunction| function_text(f));
    }
    for k in 0..ars_functions.len()
        invariant
            out@ == concat_all(ars_functions@.take(k as int), |f: ARSFunction| function_text(f)),
    {
        push_function(&mut out, &ars_functions[k]);
        proof {
            lemma_concat_step(ars_functions@, |f: ARSFunction| function_text(f), k as int);
        }
    }
    out
}

/// Where the statements of a function hold a `Generic` one (its body did
/// not parse, or was too long to be parsed), that statement is the only
/// one, it holds the trimmed body verbatim, and the reconstructed body is
/// that text.
pub proof fn generic_function_body_kept(f: ARSFunction, m: FoundView, i: int)
    requires
        function_fits(f, m),
        0 <= i < f.body@.len(),
        f.body@[i].stmt_type == StatementKind::Generic,
    ensures
        statement_views(f.body@) == seq![(StatementKind::Generic, fn_body_text(m.rest)->Some_0)],
        joined(contents(statement_views(f.body@)), "\n"@) == fn_body_text(m.rest)->Some_0,
{
    assert(statement_views(f.body@)[i].0 == StatementKind::Generic);
    generic_statement_is_whole_body(fn_body_text(m.rest)->Some_0, statement_views(f.body@), i);
}

} // verus!
