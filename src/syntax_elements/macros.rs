//! Declarative macros, kept with their body as one opaque text.

use vstd::prelude::*;
use crate::pattern::{
    attribute_list, attributes_in, find_all, found, found_views, group, group_or_empty,
    group_string, group_text, Found, FoundView,
};
use crate::balancer::{body_text, trimmed_body};
use crate::text::{framed, joined, opt_trim, opt_view, push_framed, push_joined, push_spaced, spaced, texts, trim, trimmed, trimmed_opt};

verus! {

/// How a macro is defined.
#[derive(Clone, Copy, Debug, PartialEq, Eq)]
pub enum MacroKind {
    Declarative,
    Procedural,
}

/// A macro definition.
#[derive(Debug)]
pub struct ARSMacro {
    pub name: String,
    /// The trimmed text between the braces of the definition.
    pub body: String,
    pub attributes: Vec<String>,
    pub visibility: Option<String>,
    pub macro_type: MacroKind,
}

/// Attributes, visibility, `macro_rules!`, name, then `{`.
pub const MACRO_PATTERN: &'static str =
    r"(?m)((?:#\[.*?\]\s*)*)(pub(?:\(\w+\))?\s*)?macro_rules!\s*(\w+)\s*\{";

/// The match is kept only where the balancer closes its body, empty or not.
pub open spec fn has_body(m: FoundView) -> bool {
    trimmed_body(m.rest, true, '}') is Some
}

/// `d` is the macro that a match `m` of `MACRO_PATTERN` with a body
/// describes, given the attributes found in its attribute group.
pub open spec fn macro_fits(d: ARSMacro, m: FoundView, attrs: Seq<Seq<char>>) -> bool {
    &&& d.name@ == group_or_empty(m, 3)
    &&& trimmed_body(m.rest, true, '}') == Some(d.body@)
    &&& texts(d.attributes@) == attrs
    &&& opt_view(d.visibility) == opt_trim(group(m, 2))
    &&& d.macro_type == MacroKind::Declarative
}

/// The macro that one match describes, or `None` where its body does not close.
pub fn macro_from_match(m: &Found, attributes: Vec<String>) -> (r: Option<ARSMacro>)
    ensures
        match r {
            Some(d) => macro_fits(d, m@, texts(attributes@)),
            None => !has_body(m@),
        },
{
    match body_text(m.rest.as_str(), true, '}') {
        Some(body) => Some(
            ARSMacro {
                name: group_string(m, 3),
                body,
                attributes,
                visibility: trimmed_opt(group_text(m, 2)),
                macro_type: MacroKind::Declarative,
            },
        ),
        None => None,
    }
}

/// The matches whose body closes, in order.
pub open spec fn with_body(ms: Seq<FoundView>) -> Seq<FoundView>
    decreases ms.len(),
{
    if ms.len() == 0 {
        Seq::empty()
    } else if has_body(ms.last()) {
        with_body(ms.drop_last()).push(ms.last())
    } else {
        with_body(ms.drop_last())
    }
}

pub open spec fn macros_fit(r: Seq<ARSMacro>, ms: Seq<FoundView>) -> bool {
    &&& r.len() == with_body(ms).len()
    &&& forall|i: int|
        0 <= i < r.len() ==> macro_fits(
            r[i],
            with_body(ms)[i],
            attributes_in(group_or_empty(with_body(ms)[i], 1)),
        )
}

/// Every macro of `source` whose body closes, in order of appearance.
pub fn extract_ars_macros(source: &str) -> (r: Vec<ARSMacro>)
    ensures
        macros_fit(r@, found(MACRO_PATTERN@, source@)),
{
    let ms = find_all(MACRO_PATTERN, source);
    let mut r: Vec<ARSMacro> = Vec::new();
    assert(found_views(ms@).take(0) =~= Seq::<FoundView>::empty());
    for k in 0..ms.len()
        invariant
            found_views(ms@) == found(MACRO_PATTERN@, source@),
            macros_fit(r@, found_views(ms@).take(k as int)),
    {
        let ghost mv = found_views(ms@);
        assert(mv.take(k + 1).drop_last() =~= mv.take(k as int));
        assert(mv[k as int] == ms@[k as int]@);
        let attrs = attribute_list(group_string(&ms[k], 1).as_str());
        match macro_from_match(&ms[k], attrs) {
            Some(d) => r.push(d),
            None => {},
        }
        assert(macros_fit(r@, mv.take(k + 1)));
    }
    assert(found_views(ms@).take(ms.len() as int) =~= found_views(ms@));
    r
}

/// The source text of one macro: attributes one per line, then the
/// definition on one line.
pub open spec fn macro_text(d: ARSMacro) -> Seq<char> {
    framed(texts(d.attributes@), ""@, "\n"@) + spaced(opt_view(d.visibility)) + "macro_rules! "@
        + d.name@ + " { "@ + trim(d.body@) + " }\n"@
}

fn macro_string(d: &ARSMacro) -> (r: String)
    ensures
        r@ == macro_text(*d),
{
    let mut out = String::new();
    push_framed(&mut out, &d.attributes, "", "\n");
    push_spaced(&mut out, &d.visibility);
    out.append("macro_rules! ");
    out.append(d.name.as_str());
    out.append(" { ");
    let body = trimmed(d.body.as_str());
    out.append(body.as_str());
    out.append(" }\n");
    assert(out@ =~= macro_text(*d));
    out
}

/// The source text of the macros, separated by blank lines.
pub fn reconstruct(macros: &[ARSMacro]) -> (r: String)
    ensures
        r@ == joined(macros@.map_values(|d: ARSMacro| macro_text(d)), "\n"@),
{
    let mut parts: Vec<String> = Vec::new();
    for k in 0..macros.len()
        invariant
            texts(parts@) == macros@.take(k as int).map_values(|d: ARSMacro| macro_text(d)),
    {
        let t = macro_string(&macros[k]);
        let ghost prev = parts@;
        parts.push(t);
        assert(texts(parts@) =~= texts(prev).push(t@));
        assert(texts(parts@) =~= macros@.take(k + 1).map_values(|d: ARSMacro| macro_text(d)));
    }
    assert(macros@.take(macros.len() as int) =~= macros@);
    let mut out = String::new();
    push_joined(&mut out, &parts, "\n");
    assert(out@ =~= joined(texts(parts@), "\n"@));
    out
}

} // verus!
