//! Traits: items split by line.

use vstd::prelude::*;
use crate::pattern::{
    attribute_list, attributes_in, find_all, found, found_views, group, group_or_empty,
    group_string, group_text, lemma_select_step, select, Found, FoundView,
};
use crate::balancer::{body_members, split_body};
use crate::text::{concat_all, framed, lemma_concat_step, lemma_concat_whole, opt_trim, opt_view, or_empty, push_framed, push_opt, push_spaced, spaced, texts, trimmed_opt};

verus! {

/// A trait declaration.
#[derive(Debug)]
pub struct ARSTrait {
    pub name: String,
    /// The trimmed, non-blank lines of the body.
    pub items: Vec<String>,
    pub visibility: Option<String>,
    pub generics: Option<String>,
    pub attributes: Vec<String>,
}

/// Attributes, visibility, `unsafe`, `trait`, name, generics, then `{`.
pub const TRAIT_PATTERN: &'static str =
    r"(?s)((?:#\[.*?\]\s*)*)(pub(?:\(\w+\))?\s*)?(unsafe\s+)?trait\s+(\w+)\s*(<[^>]*>)?\s*\{";

/// The match describes a trait whose body closes.
pub open spec fn trait_closed(m: FoundView) -> bool {
    body_members(m.rest, true, '}', '\n') is Some
}

/// `e` is the trait that a match `m` of `TRAIT_PATTERN` describes, given the
/// attributes found in its attribute group.
pub open spec fn trait_fits(e: ARSTrait, m: FoundView, attrs: Seq<Seq<char>>) -> bool {
    &&& e.name@ == group_or_empty(m, 4)
    &&& opt_view(e.visibility) == opt_trim(group(m, 2))
    &&& opt_view(e.generics) == group(m, 5)
    &&& texts(e.attributes@) == attrs
    &&& body_members(m.rest, true, '}', '\n') == Some(texts(e.items@))
}

/// The trait that one match describes; `None` when its body never closes.
pub fn trait_from_match(m: &Found, attributes: Vec<String>) -> (r: Option<ARSTrait>)
    ensures
        match r {
            Some(e) => trait_fits(e, m@, texts(attributes@)),
            None => !trait_closed(m@),
        },
{
    match split_body(m.rest.as_str(), true, '}', '\n') {
        Some(items) => Some(
            ARSTrait {
                name: group_string(m, 4),
                items,
                visibility: trimmed_opt(group_text(m, 2)),
                generics: group_text(m, 5),
                attributes,
            },
        ),
        None => None,
    }
}

/// The traits of the matches whose bodies close, in order.
pub open spec fn traits_fit(r: Seq<ARSTrait>, ms: Seq<FoundView>) -> bool {
    let kept = select(ms, |m: FoundView| trait_closed(m));
    &&& r.len() == kept.len()
    &&& forall|i: int|
        0 <= i < r.len() ==> trait_fits(r[i], kept[i], attributes_in(group_or_empty(kept[i], 1)))
}

/// Every trait of `source` whose body closes, in order of appearance.
pub fn extract_ars_traits(source: &str) -> (r: Vec<ARSTrait>)
    ensures
        traits_fit(r@, found(TRAIT_PATTERN@, source@)),
{
    let ms = find_all(TRAIT_PATTERN, source);
    let mut r: Vec<ARSTrait> = Vec::new();
    assert(found_views(ms@).take(0) =~= Seq::<FoundView>::empty());
    for k in 0..ms.len()
        invariant
            found_views(ms@) == found(TRAIT_PATTERN@, source@),
            traits_fit(r@, found_views(ms@).take(k as int)),
    {
        let ghost mv = found_views(ms@);
        proof {
            lemma_select_step(mv, |m: FoundView| trait_closed(m), k as int);
        }
        assert(mv[k as int] == ms@[k as int]@);
        let attrs = attribute_list(group_string(&ms[k], 1).as_str());
        match trait_from_match(&ms[k], attrs) {
            Some(e) => r.push(e),
            None => {},
        }
        assert(traits_fit(r@, mv.take(k + 1)));
    }
    assert(found_views(ms@).take(ms.len() as int) =~= found_views(ms@));
    r
}

/// The source text of one trait: attributes one per line, then the
/// declaration with one item per line, each as it was extracted.
pub open spec fn trait_text(e: ARSTrait) -> Seq<char> {
    framed(texts(e.attributes@), ""@, "\n"@) + spaced(opt_view(e.visibility)) + "trait "@
        + e.name@ + or_empty(opt_view(e.generics)) + " {\n"@ + framed(texts(e.items@), "    "@, "\n"@)
        + "}\n\n"@
}

fn push_trait(out: &mut String, e: &ARSTrait)
    ensures
        final(out)@ == old(out)@ + trait_text(*e),
{
    let ghost o0 = out@;
    push_framed(out, &e.attributes, "", "\n");
    push_spaced(out, &e.visibility);
    out.append("trait ");
    out.append(e.name.as_str());
    push_opt(out, &e.generics);
    out.append(" {\n");
    push_framed(out, &e.items, "    ", "\n");
    out.append("}\n\n");
    assert(out@ =~= o0 + trait_text(*e));
}

/// The source text of the traits, one after another.
pub fn reconstruct(ars_traits: &[ARSTrait]) -> (r: String)
    ensures
        r@ == concat_all(ars_traits@, |t: ARSTrait| trait_text(t)),
{
    let mut out = String::new();
    proof {
        lemma_concat_whole(ars_traits@, |t: ARSTrait| trait_text(t));
    }
    for k in 0..ars_traits.len()
        invariant
            out@ == concat_all(ars_traits@.take(k as int), |t: ARSTrait| trait_text(t)),
    {
        push_trait(&mut out, &ars_traits[k]);
        proof {
            lemma_concat_step(ars_traits@, |t: ARSTrait| trait_text(t), k as int);
        }
    }
    out
}

} // verus!
