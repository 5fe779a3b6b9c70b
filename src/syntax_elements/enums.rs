//! Enums: variants split on commas.

use vstd::prelude::*;
use crate::pattern::{
    attribute_list, attributes_in, find_all, found, found_views, group, group_or_empty,
    group_string, group_text, lemma_select_step, select, Found, FoundView,
};
use crate::balancer::{body_members, split_body};
use crate::text::{push_spaced, spaced, concat_all, framed, joined, lemma_concat_step, lemma_concat_whole, opt_trim, opt_view, or_empty, push_framed, push_joined, push_opt, texts, trimmed_opt};

verus! {

/// An enum declaration.
#[derive(Debug)]
pub struct ARSEnum {
    pub name: String,
    /// The raw text of each variant.
    pub variants: Vec<String>,
    pub visibility: Option<String>,
    pub generics: Option<String>,
    pub attributes: Vec<String>,
}

/// Attributes, visibility, `enum`, name, generics, then `{`.
pub const ENUM_PATTERN: &'static str =
    r"(?s)((?:#\[.*?\]\s*)*)(pub(?:\(\w+\))?\s*)?enum\s+(\w+)\s*(<[^>]*>)?\s*\{";

/// The match describes a enum whose body closes.
pub open spec fn enum_closed(m: FoundView) -> bool {
    body_members(m.rest, true, '}', ',') is Some
}

/// `e` is the enum that a match `m` of `ENUM_PATTERN` describes, given the
/// attributes found in its attribute group.
pub open spec fn enum_fits(e: ARSEnum, m: FoundView, attrs: Seq<Seq<char>>) -> bool {
    &&& e.name@ == group_or_empty(m, 3)
    &&& opt_view(e.visibility) == opt_trim(group(m, 2))
    &&& opt_view(e.generics) == group(m, 4)
    &&& texts(e.attributes@) == attrs
    &&& body_members(m.rest, true, '}', ',') == Some(texts(e.variants@))
}

/// The enum that one match describes; `None` when its body never closes.
pub fn enum_from_match(m: &Found, attributes: Vec<String>) -> (r: Option<ARSEnum>)
    ensures
        match r {
            Some(e) => enum_fits(e, m@, texts(attributes@)),
            None => !enum_closed(m@),
        },
{
    match split_body(m.rest.as_str(), true, '}', ',') {
        Some(variants) => Some(
            ARSEnum {
                name: group_string(m, 3),
                variants,
                visibility: trimmed_opt(group_text(m, 2)),
                generics: group_text(m, 4),
                attributes,
            },
        ),
        None => None,
    }
}

/// The enums of the matches whose bodies close, in order.
pub open spec fn enums_fit(r: Seq<ARSEnum>, ms: Seq<FoundView>) -> bool {
    let kept = select(ms, |m: FoundView| enum_closed(m));
    &&& r.len() == kept.len()
    &&& forall|i: int|
        0 <= i < r.len() ==> enum_fits(r[i], kept[i], attributes_in(group_or_empty(kept[i], 1)))
}

/// Every enum of `source` whose body closes, in order of appearance.
pub fn extract_ars_enums(source: &str) -> (r: Vec<ARSEnum>)
    ensures
        enums_fit(r@, found(ENUM_PATTERN@, source@)),
{
    let ms = find_all(ENUM_PATTERN, source);
    let mut r: Vec<ARSEnum> = Vec::new();
    assert(found_views(ms@).take(0) =~= Seq::<FoundView>::empty());
    for k in 0..ms.len()
        invariant
            found_views(ms@) == found(ENUM_PATTERN@, source@),
            enums_fit(r@, found_views(ms@).take(k as int)),
    {
        let ghost mv = found_views(ms@);
        proof {
            lemma_select_step(mv, |m: FoundView| enum_closed(m), k as int);
        }
        assert(mv[k as int] == ms@[k as int]@);
        let attrs = attribute_list(group_string(&ms[k], 1).as_str());
        match enum_from_match(&ms[k], attrs) {
            Some(e) => r.push(e),
            None => {},
        }
        assert(enums_fit(r@, mv.take(k + 1)));
    }
    assert(found_views(ms@).take(ms.len() as int) =~= found_views(ms@));
    r
}

/// The source text of one enum: attributes one per line, then the
/// declaration with its variants on one line.
pub open spec fn enum_text(e: ARSEnum) -> Seq<char> {
    framed(texts(e.attributes@), ""@, "\n"@) + spaced(opt_view(e.visibility)) + "enum "@
        + e.name@ + or_empty(opt_view(e.generics)) + " { "@ + joined(texts(e.variants@), ", "@)
        + " }\n\n"@
}

fn push_enum(out: &mut String, e: &ARSEnum)
    ensures
        final(out)@ == old(out)@ + enum_text(*e),
{
    let ghost o0 = out@;
    push_framed(out, &e.attributes, "", "\n");
    push_spaced(out, &e.visibility);
    out.append("enum ");
    out.append(e.name.as_str());
    push_opt(out, &e.generics);
    out.append(" { ");
    push_joined(out, &e.variants, ", ");
    out.append(" }\n\n");
    assert(out@ =~= o0 + enum_text(*e));
}

/// The source text of the enums, one after another.
pub fn reconstruct(ars_enums: &[ARSEnum]) -> (r: String)
    ensures
        r@ == concat_all(ars_enums@, |e: ARSEnum| enum_text(e)),
{
    let mut out = String::new();
    proof {
        lemma_concat_whole(ars_enums@, |e: ARSEnum| enum_text(e));
    }
    for k in 0..ars_enums.len()
        invariant
            out@ == concat_all(ars_enums@.take(k as int), |e: ARSEnum| enum_text(e)),
    {
        push_enum(&mut out, &ars_enums[k]);
        proof {
            lemma_concat_step(ars_enums@, |e: ARSEnum| enum_text(e), k as int);
        }
    }
    out
}

} // verus!
